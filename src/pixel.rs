//! Pixels and the per-pixel blend.
use vstd::prelude::*;

verus! {

/// Whether the blend treats pixels as opaque or weighs each colour channel
/// by its alpha channel.
#[derive(Clone, Copy, Debug, PartialEq, Eq, Structural)]
pub enum ColorMode {
    Opaque,
    Alpha,
}

/// One pixel: red, green, blue and alpha, eight bits each, not premultiplied.
/// An opaque pixel carries alpha 255.
#[derive(Clone, Copy, Debug, PartialEq, Eq, Structural)]
pub struct Pixel {
    pub r: u8,
    pub g: u8,
    pub b: u8,
    pub a: u8,
}

/// The mode of a blend between two images: alpha as soon as either side
/// carries an alpha channel.
pub open spec fn combined_mode_spec(x: ColorMode, y: ColorMode) -> ColorMode {
    if x == ColorMode::Alpha || y == ColorMode::Alpha {
        ColorMode::Alpha
    } else {
        ColorMode::Opaque
    }
}

/// One channel of an opaque blend: `(x * w + y * (255 - w)) / 255`.
pub open spec fn opaque_channel(x: u8, y: u8, w: u8) -> int {
    (x * w + y * (255 - w)) / 255
}

/// One colour channel of an alpha blend, each side weighed by its own alpha:
/// `(x * xa * w + y * ya * (255 - w)) / 0xfe01`, the divisor being `255 * 255`.
pub open spec fn alpha_channel(x: u8, xa: u8, y: u8, ya: u8, w: u8) -> int {
    (x * xa * w + y * ya * (255 - w)) / 0xfe01
}

/// The blend of `p` and `q` at weight `w`: 255 is all of `p`, 0 all of `q`.
/// In opaque mode the alpha channel is the one of `p`.
pub open spec fn blend_spec(p: Pixel, q: Pixel, w: u8, mode: ColorMode) -> Pixel {
    match mode {
        ColorMode::Opaque => Pixel {
            r: opaque_channel(p.r, q.r, w) as u8,
            g: opaque_channel(p.g, q.g, w) as u8,
            b: opaque_channel(p.b, q.b, w) as u8,
            a: p.a,
        },
        ColorMode::Alpha => Pixel {
            r: alpha_channel(p.r, p.a, q.r, q.a, w) as u8,
            g: alpha_channel(p.g, p.a, q.g, q.a, w) as u8,
            b: alpha_channel(p.b, p.a, q.b, q.a, w) as u8,
            a: opaque_channel(p.a, q.a, w) as u8,
        },
    }
}

proof fn lemma_opaque_channel_bounds(x: u8, y: u8, w: u8)
    ensures
        x * w + y * (255 - w) <= 65025,
        0 <= opaque_channel(x, y, w) <= 255,
{
    assert(x * w <= 255 * w) by (nonlinear_arith)
        requires
            x <= 255,
            0 <= w,
    ;
    assert(y * (255 - w) <= 255 * (255 - w)) by (nonlinear_arith)
        requires
            y <= 255,
            0 <= 255 - w,
    ;
    assert(x * w >= 0 && y * (255 - w) >= 0) by (nonlinear_arith)
        requires
            x >= 0,
            y >= 0,
            0 <= w <= 255,
    ;
}

proof fn lemma_alpha_channel_bounds(x: u8, xa: u8, y: u8, ya: u8, w: u8)
    ensures
        x * xa <= 65025,
        y * ya <= 65025,
        (x * xa) * w + (y * ya) * (255 - w) <= 16581375,
        0 <= alpha_channel(x, xa, y, ya, w) <= 255,
{
    assert(0 <= x * xa <= 65025) by (nonlinear_arith)
        requires
            0 <= x <= 255,
            0 <= xa <= 255,
    ;
    assert(0 <= y * ya <= 65025) by (nonlinear_arith)
        requires
            0 <= y <= 255,
            0 <= ya <= 255,
    ;
    let s = x * xa;
    let t = y * ya;
    assert(0 <= s * w + t * (255 - w) <= 65025 * 255) by (nonlinear_arith)
        requires
            0 <= s <= 65025,
            0 <= t <= 65025,
            0 <= w <= 255,
    ;
    assert(x * xa * w == s * w);
    assert(y * ya * (255 - w) == t * (255 - w));
}

fn blend_opaque_channel(x: u8, y: u8, w: u8) -> (r: u8)
    ensures
        r == opaque_channel(x, y, w),
{
    proof {
        lemma_opaque_channel_bounds(x, y, w);
    }
    let inv: u32 = 255 - w as u32;
    ((x as u32 * w as u32 + y as u32 * inv) / 255) as u8
}

fn blend_alpha_channel(x: u8, xa: u8, y: u8, ya: u8, w: u8) -> (r: u8)
    ensures
        r == alpha_channel(x, xa, y, ya, w),
{
    proof {
        lemma_alpha_channel_bounds(x, xa, y, ya, w);
    }
    let inv: u32 = 255 - w as u32;
    let s: u32 = x as u32 * xa as u32;
    let t: u32 = y as u32 * ya as u32;
    ((s * w as u32 + t * inv) / 0xfe01) as u8
}

/// The mode of a blend between an image of mode `x` and one of mode `y`.
pub fn combined_mode(x: ColorMode, y: ColorMode) -> (r: ColorMode)
    ensures
        r == combined_mode_spec(x, y),
{
    match (x, y) {
        (ColorMode::Opaque, ColorMode::Opaque) => ColorMode::Opaque,
        _ => ColorMode::Alpha,
    }
}

/// Blends `p` and `q` at weight `w` (255 gives `p`'s colour, 0 `q`'s).
pub fn blend(p: Pixel, q: Pixel, w: u8, mode: ColorMode) -> (r: Pixel)
    ensures
        r == blend_spec(p, q, w, mode),
{
    match mode {
        ColorMode::Opaque => Pixel {
            r: blend_opaque_channel(p.r, q.r, w),
            g: blend_opaque_channel(p.g, q.g, w),
            b: blend_opaque_channel(p.b, q.b, w),
            a: p.a,
        },
        ColorMode::Alpha => Pixel {
            r: blend_alpha_channel(p.r, p.a, q.r, q.a, w),
            g: blend_alpha_channel(p.g, p.a, q.g, q.a, w),
            b: blend_alpha_channel(p.b, p.a, q.b, q.a, w),
            a: blend_opaque_channel(p.a, q.a, w),
        },
    }
}

proof fn lemma_opaque_channel_self(x: u8, w: u8)
    ensures
        opaque_channel(x, x, w) == x,
{
    assert(x * w + x * (255 - w) == x * 255) by (nonlinear_arith);
}

/// With `c` a colour channel and `a` its alpha, the alpha blend of the channel
/// with itself is `c * a * 255 / 0xfe01`, that is `c * a / 255`: `c` when `a`
/// is 255 or `c` is 0, below `c` otherwise.
proof fn lemma_alpha_channel_self(c: u8, a: u8, w: u8)
    ensures
        alpha_channel(c, a, c, a, w) == c <==> (a == 255 || c == 0),
{
    let s = c * a;
    assert(s * w + s * (255 - w) == s * 255) by (nonlinear_arith);
    assert(c * a * w == s * w);
    assert(c * a * (255 - w) == s * (255 - w));
    if a == 255 {
        assert(s * 255 == c * 0xfe01) by (nonlinear_arith)
            requires
                s == c * a,
                a == 255,
        ;
    } else if c > 0 {
        assert(s * 255 < c * 0xfe01) by (nonlinear_arith)
            requires
                s == c * a,
                a < 255,
                c > 0,
        ;
        assert((s * 255) / 0xfe01 < c) by (nonlinear_arith)
            requires
                s * 255 < c * 0xfe01,
                s >= 0,
        ;
    } else {
        assert(s == 0);
    }
}

/// Blending a pixel with itself gives it back, at every weight, in opaque
/// mode; in alpha mode exactly when the pixel is fully opaque or black (a
/// colour weighed by a partial alpha comes out below its value).
pub proof fn lemma_blend_self_identity(p: Pixel, w: u8, mode: ColorMode)
    ensures
        blend_spec(p, p, w, mode) == p <==> (mode == ColorMode::Opaque || p.a == 255 || (p.r
            == 0 && p.g == 0 && p.b == 0)),
{
    lemma_opaque_channel_self(p.r, w);
    lemma_opaque_channel_self(p.g, w);
    lemma_opaque_channel_self(p.b, w);
    lemma_opaque_channel_self(p.a, w);
    lemma_alpha_channel_self(p.r, p.a, w);
    lemma_alpha_channel_self(p.g, p.a, w);
    lemma_alpha_channel_self(p.b, p.a, w);
    lemma_alpha_channel_bounds(p.r, p.a, p.r, p.a, w);
    lemma_alpha_channel_bounds(p.g, p.a, p.g, p.a, w);
    lemma_alpha_channel_bounds(p.b, p.a, p.b, p.a, w);
}

} // verus!
