//! Images as grids of pixels, and the blend of two images.
use vstd::prelude::*;
use crate::pixel::{blend, blend_spec, combined_mode, combined_mode_spec, ColorMode, Pixel};

verus! {

/// An image: `width * height` pixels stored row by row, and the colour mode
/// that its source had.
#[derive(Clone, Debug, PartialEq, Eq)]
pub struct Image {
    pub width: u32,
    pub height: u32,
    pub mode: ColorMode,
    pub pixels: Vec<Pixel>,
}

/// What an image is: its size, its mode and its pixels, row by row.
pub struct ImageView {
    pub width: nat,
    pub height: nat,
    pub mode: ColorMode,
    pub pixels: Seq<Pixel>,
}

impl View for Image {
    type V = ImageView;

    open spec fn view(&self) -> ImageView {
        ImageView {
            width: self.width as nat,
            height: self.height as nat,
            mode: self.mode,
            pixels: self.pixels@,
        }
    }
}

impl ImageView {
    /// The image holds exactly one pixel per position.
    pub open spec fn wf(self) -> bool {
        self.pixels.len() == self.width * self.height
    }

    /// Both images have one width and one height.
    pub open spec fn same_size(self, other: ImageView) -> bool {
        self.width == other.width && self.height == other.height
    }
}

/// The pixels that a buffer of RGBA bytes holds, four bytes each.
pub open spec fn pixels_of_bytes(bytes: Seq<u8>) -> Seq<Pixel> {
    Seq::new(
        bytes.len() / 4,
        |i: int|
            Pixel { r: bytes[4 * i], g: bytes[4 * i + 1], b: bytes[4 * i + 2], a: bytes[4 * i + 3] },
    )
}

/// The RGBA bytes of a run of pixels, four for each.
pub open spec fn bytes_of_pixels(pixels: Seq<Pixel>) -> Seq<u8> {
    Seq::new(
        4 * pixels.len(),
        |j: int|
            {
                let p = pixels[j / 4];
                if j % 4 == 0 {
                    p.r
                } else if j % 4 == 1 {
                    p.g
                } else if j % 4 == 2 {
                    p.b
                } else {
                    p.a
                }
            },
    )
}

/// The blend of two images of one size at weight `w`, pixel by pixel, in the
/// mode that the two images' modes combine to.
pub open spec fn blended_view(x: ImageView, y: ImageView, w: u8) -> ImageView {
    let mode = combined_mode_spec(x.mode, y.mode);
    ImageView {
        width: x.width,
        height: x.height,
        mode,
        pixels: Seq::new(x.pixels.len(), |i: int| blend_spec(x.pixels[i], y.pixels[i], w, mode)),
    }
}

/// The number of pixels of an image of the given size.
fn pixel_count(width: u32, height: u32) -> (r: u64)
    ensures
        r == width * height,
        4 * width * height == 4 * r,
{
    assert(width * height <= 0xffff_ffff * 0xffff_ffffu64) by (nonlinear_arith)
        requires
            width <= 0xffff_ffff,
            height <= 0xffff_ffff,
    ;
    assert(4 * width * height == 4 * (width * height)) by (nonlinear_arith);
    width as u64 * height as u64
}

impl Image {
    /// The image holds exactly one pixel per position.
    pub open spec fn wf(&self) -> bool {
        self@.wf()
    }

    /// Whether the image holds exactly `width * height` pixels.
    pub fn is_well_formed(&self) -> (r: bool)
        ensures
            r == self.wf(),
    {
        self.pixels.len() as u64 == pixel_count(self.width, self.height)
    }

    /// An image of the given size and mode over `pixels`, row by row; `None`
    /// where their number is not `width * height`.
    pub fn new(width: u32, height: u32, mode: ColorMode, pixels: Vec<Pixel>) -> (r: Option<Image>)
        ensures
            r is Some <==> pixels@.len() == width * height,
            r matches Some(img) ==> img@ == (ImageView {
                width: width as nat,
                height: height as nat,
                mode,
                pixels: pixels@,
            }),
    {
        let n: u64 = pixel_count(width, height);
        if pixels.len() as u64 != n {
            None
        } else {
            Some(Image { width, height, mode, pixels })
        }
    }

    /// Reads an image from a buffer of RGBA bytes, four for each pixel, row
    /// by row; `None` where the buffer is not `4 * width * height` bytes long.
    pub fn from_rgba_bytes(width: u32, height: u32, mode: ColorMode, bytes: &Vec<u8>) -> (r:
        Option<Image>)
        ensures
            r is Some <==> bytes@.len() == 4 * width * height,
            r matches Some(img) ==> img@ == (ImageView {
                width: width as nat,
                height: height as nat,
                mode,
                pixels: pixels_of_bytes(bytes@),
            }),
    {
        let n: u64 = pixel_count(width, height);
        let len: usize = bytes.len();
        if len % 4 != 0 || len as u64 / 4 != n {
            return None;
        }
        let count: usize = len / 4;
        let mut pixels: Vec<Pixel> = Vec::with_capacity(count);
        let mut i: usize = 0;
        while i < count
            invariant
                count == bytes@.len() / 4,
                len == bytes@.len(),
                len % 4 == 0,
                i <= count,
                pixels@ == pixels_of_bytes(bytes@).subrange(0, i as int),
            decreases count - i,
        {
            let k: usize = 4 * i;
            pixels.push(Pixel { r: bytes[k], g: bytes[k + 1], b: bytes[k + 2], a: bytes[k + 3] });
            i = i + 1;
            assert(pixels@ =~= pixels_of_bytes(bytes@).subrange(0, i as int));
        }
        assert(pixels@ =~= pixels_of_bytes(bytes@));
        Some(Image { width, height, mode, pixels })
    }

    /// The image's pixels as RGBA bytes, four for each pixel, row by row.
    pub fn to_rgba_bytes(&self) -> (r: Vec<u8>)
        requires
            4 * self.pixels@.len() <= usize::MAX,
        ensures
            r@ == bytes_of_pixels(self.pixels@),
    {
        let mut bytes: Vec<u8> = Vec::with_capacity(4 * self.pixels.len());
        let mut i: usize = 0;
        while i < self.pixels.len()
            invariant
                i <= self.pixels@.len(),
                4 * self.pixels@.len() <= usize::MAX,
                bytes@ == bytes_of_pixels(self.pixels@).subrange(0, 4 * i),
            decreases self.pixels@.len() - i,
        {
            let p = self.pixels[i];
            bytes.push(p.r);
            bytes.push(p.g);
            bytes.push(p.b);
            bytes.push(p.a);
            i = i + 1;
            assert(bytes@ =~= bytes_of_pixels(self.pixels@).subrange(0, 4 * i));
        }
        assert(bytes@ =~= bytes_of_pixels(self.pixels@));
        bytes
    }

    /// A copy of the image.
    pub fn duplicate(&self) -> (r: Image)
        ensures
            r@ == self@,
    {
        let mut pixels: Vec<Pixel> = Vec::with_capacity(self.pixels.len());
        let mut i: usize = 0;
        while i < self.pixels.len()
            invariant
                i <= self.pixels@.len(),
                pixels@ == self.pixels@.subrange(0, i as int),
            decreases self.pixels@.len() - i,
        {
            pixels.push(self.pixels[i]);
            i = i + 1;
            assert(pixels@ =~= self.pixels@.subrange(0, i as int));
        }
        assert(pixels@ =~= self.pixels@);
        Image { width: self.width, height: self.height, mode: self.mode, pixels }
    }
}

/// Blends two images of one size at weight `w`: 255 gives `x`'s colours, 0
/// `y`'s.
pub fn blend_images(x: &Image, y: &Image, w: u8) -> (r: Image)
    requires
        x.wf(),
        y.wf(),
        x@.same_size(y@),
    ensures
        r@ == blended_view(x@, y@, w),
        r.wf(),
{
    let mode = combined_mode(x.mode, y.mode);
    let n: usize = x.pixels.len();
    let mut pixels: Vec<Pixel> = Vec::with_capacity(n);
    let mut i: usize = 0;
    while i < n
        invariant
            n == x.pixels@.len(),
            n == y.pixels@.len(),
            mode == combined_mode_spec(x.mode, y.mode),
            i <= n,
            pixels@ == blended_view(x@, y@, w).pixels.subrange(0, i as int),
        decreases n - i,
    {
        pixels.push(blend(x.pixels[i], y.pixels[i], w, mode));
        i = i + 1;
        assert(pixels@ =~= blended_view(x@, y@, w).pixels.subrange(0, i as int));
    }
    assert(pixels@ =~= blended_view(x@, y@, w).pixels);
    Image { width: x.width, height: x.height, mode, pixels }
}

} // verus!
