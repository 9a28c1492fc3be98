//! Checking a run's parameters and images before any frame is made.
use vstd::prelude::*;
use crate::animation::{schedulable, ScheduleConfig};
use crate::raster::Image;

verus! {

/// The largest width or height that a GIF can record (16 bits).
pub const MAX_DIMENSION: u32 = 65535;

/// Why a run cannot start.
#[derive(Clone, Copy, Debug, PartialEq, Eq, Structural)]
pub enum ConfigError {
    /// No image was given.
    NoImages,
    /// One image only: there is nothing to fade into.
    SingleImage,
    /// Image `index` does not hold one pixel per position.
    MalformedImage { index: u64 },
    /// Image `index` is wider than `MAX_DIMENSION`.
    TooWide { index: u64, width: u32 },
    /// Image `index` is taller than `MAX_DIMENSION`.
    TooTall { index: u64, height: u32 },
    /// Image `index` is not of the first image's size.
    DimensionMismatch { index: u64, expected_width: u32, expected_height: u32, width: u32, height: u32 },
    /// A transition needs at least one frame.
    ZeroFrameCount,
    /// The encoder's speed lies outside 1 to 30.
    SpeedOutOfRange { speed: i32 },
}

/// What is wrong with a size, if anything: the width is looked at first.
pub open spec fn size_problem(index: nat, width: u32, height: u32) -> Option<ConfigError> {
    if width > MAX_DIMENSION {
        Some(ConfigError::TooWide { index: index as u64, width })
    } else if height > MAX_DIMENSION {
        Some(ConfigError::TooTall { index: index as u64, height })
    } else {
        None
    }
}

/// What is wrong with image `i` of `images`, if anything: its pixels, then
/// its size, then whether it has the first image's size.
pub open spec fn image_problem(images: Seq<Image>, i: int) -> Option<ConfigError> {
    let img = images[i];
    if !img.wf() {
        Some(ConfigError::MalformedImage { index: i as u64 })
    } else if size_problem(i as nat, img.width, img.height) is Some {
        size_problem(i as nat, img.width, img.height)
    } else if img.width != images[0].width || img.height != images[0].height {
        Some(
            ConfigError::DimensionMismatch {
                index: i as u64,
                expected_width: images[0].width,
                expected_height: images[0].height,
                width: img.width,
                height: img.height,
            },
        )
    } else {
        None
    }
}

/// The problem of the first image from position `i` on that has one.
pub open spec fn first_problem_from(images: Seq<Image>, i: int) -> Option<ConfigError>
    decreases images.len() - i,
{
    if i < 0 || i >= images.len() {
        None
    } else if image_problem(images, i) is Some {
        image_problem(images, i)
    } else {
        first_problem_from(images, i + 1)
    }
}

/// What keeps `images` from making an animation, if anything: too few of
/// them, else the first image with a problem.
pub open spec fn sequence_problem(images: Seq<Image>) -> Option<ConfigError> {
    if images.len() == 0 {
        Some(ConfigError::NoImages)
    } else if images.len() == 1 {
        Some(ConfigError::SingleImage)
    } else {
        first_problem_from(images, 0)
    }
}

/// Every image is well formed, within `MAX_DIMENSION` and of the first
/// image's size.
pub open spec fn all_sound(images: Seq<Image>) -> bool {
    forall|i: int|
        0 <= i < images.len() ==> {
            &&& (#[trigger] images[i]).wf()
            &&& images[i].width <= MAX_DIMENSION
            &&& images[i].height <= MAX_DIMENSION
            &&& images[i].width == images[0].width
            &&& images[i].height == images[0].height
        }
}

proof fn lemma_first_problem_from(images: Seq<Image>, i: int)
    requires
        0 <= i <= images.len(),
    ensures
        first_problem_from(images, i) is None <==> forall|k: int|
            i <= k < images.len() ==> #[trigger] image_problem(images, k) is None,
    decreases images.len() - i,
{
    if i < images.len() {
        lemma_first_problem_from(images, i + 1);
    }
}

/// Rejects a width or height over `MAX_DIMENSION`, the width first; `index`
/// names the image in the error.
pub fn check_size(index: u64, width: u32, height: u32) -> (r: Result<(), ConfigError>)
    ensures
        r is Ok <==> size_problem(index as nat, width, height) is None,
        r matches Err(e) ==> size_problem(index as nat, width, height) == Some(e),
{
    if width > MAX_DIMENSION {
        Err(ConfigError::TooWide { index, width })
    } else if height > MAX_DIMENSION {
        Err(ConfigError::TooTall { index, height })
    } else {
        Ok(())
    }
}

/// Checks the images of a run before any frame is made: at least two, each
/// well formed, none over `MAX_DIMENSION` wide or tall, all of one size. The
/// error names the first image at fault.
pub fn validate_images(images: &Vec<Image>) -> (r: Result<(), ConfigError>)
    ensures
        r is Ok <==> sequence_problem(images@) is None,
        r matches Err(e) ==> sequence_problem(images@) == Some(e),
        r is Ok <==> images@.len() >= 2 && all_sound(images@),
        r is Ok ==> schedulable(images@),
{
    let n: usize = images.len();
    if n == 0 {
        return Err(ConfigError::NoImages);
    }
    if n == 1 {
        return Err(ConfigError::SingleImage);
    }
    let first_width = images[0].width;
    let first_height = images[0].height;
    let mut i: usize = 0;
    while i < n
        invariant
            n == images@.len(),
            n >= 2,
            i <= n,
            first_width == images@[0].width,
            first_height == images@[0].height,
            forall|k: int| 0 <= k < i ==> #[trigger] image_problem(images@, k) is None,
            first_problem_from(images@, 0) == first_problem_from(images@, i as int),
        decreases n - i,
    {
        let img = &images[i];
        let ghost problem = image_problem(images@, i as int);
        if !img.is_well_formed() {
            return Err(ConfigError::MalformedImage { index: i as u64 });
        }
        match check_size(i as u64, img.width, img.height) {
            Err(e) => {
                return Err(e);
            },
            Ok(()) => {},
        }
        if img.width != first_width || img.height != first_height {
            return Err(
                ConfigError::DimensionMismatch {
                    index: i as u64,
                    expected_width: first_width,
                    expected_height: first_height,
                    width: img.width,
                    height: img.height,
                },
            );
        }
        i = i + 1;
    }
    proof {
        lemma_first_problem_from(images@, 0);
        assert forall|k: int| 0 <= k < images@.len() implies {
            &&& (#[trigger] images@[k]).wf()
            &&& images@[k].width <= MAX_DIMENSION
            &&& images@[k].height <= MAX_DIMENSION
            &&& images@[k].width == images@[0].width
            &&& images@[k].height == images@[0].height
        } by {
            assert(image_problem(images@, k) is None);
        }
    }
    Ok(())
}

/// Frames per transition when none is asked for.
pub const DEFAULT_FRAME_COUNT: u32 = 10;

/// How long an original image stays when nothing else is asked for.
pub const DEFAULT_ENDPOINT_DURATION_MS: u64 = 1000;

/// The encoder's speed when none is asked for.
pub const DEFAULT_SPEED: i32 = 10;

impl ScheduleConfig {
    /// The parameters of a run, checked: the frame count is looked at first,
    /// then the speed.
    pub fn new(frame_count: u32, endpoint_duration_ms: u64, step_duration_ms: u64, speed: i32) -> (r:
        Result<ScheduleConfig, ConfigError>)
        ensures
            r is Ok <==> frame_count >= 1 && 1 <= speed <= 30,
            r == Err::<ScheduleConfig, ConfigError>(ConfigError::ZeroFrameCount) <==> frame_count
                == 0,
            r == Err::<ScheduleConfig, ConfigError>(ConfigError::SpeedOutOfRange { speed }) <==> (
            frame_count >= 1 && !(1 <= speed <= 30)),
            r matches Ok(c) ==> c == (ScheduleConfig {
                frame_count,
                endpoint_duration_ms,
                step_duration_ms,
                speed,
            }),
    {
        if frame_count == 0 {
            Err(ConfigError::ZeroFrameCount)
        } else if speed < 1 || speed > 30 {
            Err(ConfigError::SpeedOutOfRange { speed })
        } else {
            Ok(ScheduleConfig { frame_count, endpoint_duration_ms, step_duration_ms, speed })
        }
    }

    /// How long an in-between frame stays when nothing else is asked for: a
    /// second shared out over the frames of a transition, in whole
    /// milliseconds.
    pub fn default_step_duration(frame_count: u32) -> (r: u64)
        requires
            frame_count >= 1,
        ensures
            r == 1000int / (frame_count as int),
    {
        1000 / frame_count as u64
    }
}

impl Default for ScheduleConfig {
    /// Ten frames per transition, an original image for a second, an
    /// in-between frame for a tenth of one, speed 10.
    fn default() -> (r: ScheduleConfig)
        ensures
            r == (ScheduleConfig {
                frame_count: 10,
                endpoint_duration_ms: 1000,
                step_duration_ms: 100,
                speed: 10,
            }),
    {
        ScheduleConfig {
            frame_count: DEFAULT_FRAME_COUNT,
            endpoint_duration_ms: DEFAULT_ENDPOINT_DURATION_MS,
            step_duration_ms: ScheduleConfig::default_step_duration(DEFAULT_FRAME_COUNT),
            speed: DEFAULT_SPEED,
        }
    }
}

} // verus!
