use fade::animation::ScheduleConfig;
use fade::config::{check_size, validate_images, ConfigError, MAX_DIMENSION};
use fade::pixel::{ColorMode, Pixel};
use fade::raster::Image;

fn blank(width: u32, height: u32) -> Image {
    let p = Pixel { r: 0, g: 0, b: 0, a: 255 };
    Image::new(width, height, ColorMode::Opaque, vec![p; (width as usize) * (height as usize)]).unwrap()
}

#[test]
fn mismatched_dimensions_are_rejected() {
    let images = vec![blank(10, 10), blank(10, 11)];
    assert_eq!(
        validate_images(&images),
        Err(ConfigError::DimensionMismatch {
            index: 1,
            expected_width: 10,
            expected_height: 10,
            width: 10,
            height: 11
        })
    );
}

#[test]
fn matching_dimensions_are_accepted() {
    let images = vec![blank(10, 10), blank(10, 10), blank(10, 10)];
    assert_eq!(validate_images(&images), Ok(()));
}

#[test]
fn oversized_images_are_rejected() {
    assert_eq!(MAX_DIMENSION, 65535);
    let images = vec![blank(65536, 1), blank(65536, 1)];
    assert_eq!(validate_images(&images), Err(ConfigError::TooWide { index: 0, width: 65536 }));
    let images = vec![blank(1, 65535), blank(1, 65536)];
    assert_eq!(validate_images(&images), Err(ConfigError::TooTall { index: 1, height: 65536 }));
    let images = vec![blank(65535, 1), blank(65535, 1)];
    assert_eq!(validate_images(&images), Ok(()));
}

#[test]
fn check_size_looks_at_width_first() {
    assert_eq!(check_size(3, 65535, 65535), Ok(()));
    assert_eq!(check_size(3, 65536, 70000), Err(ConfigError::TooWide { index: 3, width: 65536 }));
    assert_eq!(check_size(4, 10, 70000), Err(ConfigError::TooTall { index: 4, height: 70000 }));
    assert_eq!(check_size(0, 0, 0), Ok(()));
}

#[test]
fn too_few_images_are_rejected() {
    assert_eq!(validate_images(&vec![]), Err(ConfigError::NoImages));
    assert_eq!(validate_images(&vec![blank(2, 2)]), Err(ConfigError::SingleImage));
}

#[test]
fn malformed_images_are_rejected() {
    let mut broken = blank(2, 2);
    broken.pixels.pop();
    let images = vec![blank(2, 2), broken];
    assert_eq!(validate_images(&images), Err(ConfigError::MalformedImage { index: 1 }));
}

#[test]
fn the_first_image_at_fault_is_named() {
    let images = vec![blank(4, 4), blank(4, 5), blank(70000, 1)];
    assert_eq!(
        validate_images(&images),
        Err(ConfigError::DimensionMismatch {
            index: 1,
            expected_width: 4,
            expected_height: 4,
            width: 4,
            height: 5
        })
    );
}

#[test]
fn config_checks_frame_count_then_speed() {
    assert_eq!(ScheduleConfig::new(0, 1000, 100, 0), Err(ConfigError::ZeroFrameCount));
    assert_eq!(ScheduleConfig::new(5, 1000, 100, 0), Err(ConfigError::SpeedOutOfRange { speed: 0 }));
    assert_eq!(ScheduleConfig::new(5, 1000, 100, 31), Err(ConfigError::SpeedOutOfRange { speed: 31 }));
    assert_eq!(
        ScheduleConfig::new(5, 1000, 100, 30),
        Ok(ScheduleConfig { frame_count: 5, endpoint_duration_ms: 1000, step_duration_ms: 100, speed: 30 })
    );
    assert!(ScheduleConfig::new(1, 0, 0, 1).is_ok());
}
