use fade::animation::{interpolate, schedule, step_weight, transition, ScheduleConfig};
use fade::pixel::{blend, ColorMode, Pixel};
use fade::raster::{blend_images, Image};

fn px(r: u8, g: u8, b: u8, a: u8) -> Pixel {
    Pixel { r, g, b, a }
}

fn filled(width: u32, height: u32, mode: ColorMode, p: Pixel) -> Image {
    Image::new(width, height, mode, vec![p; (width * height) as usize]).unwrap()
}

fn config(frame_count: u32, endpoint: u64, step: u64) -> ScheduleConfig {
    ScheduleConfig::new(frame_count, endpoint, step, 10).unwrap()
}

#[test]
fn weights_fall_evenly() {
    let w: Vec<u8> = (0..10).map(|k| step_weight(k, 10)).collect();
    assert_eq!(w, vec![255, 230, 204, 179, 153, 128, 102, 77, 51, 26]);
    let w: Vec<u8> = (0..4).map(|k| step_weight(k, 4)).collect();
    assert_eq!(w, vec![255, 192, 128, 64]);
}

#[test]
fn weights_never_grow_and_never_reach_zero() {
    for n in [1u32, 2, 3, 7, 10, 255, 256, 1000] {
        let mut last = 255u8;
        for k in 0..n {
            let w = step_weight(k, n);
            assert!(w <= last);
            assert!(w >= 1);
            last = w;
        }
    }
    assert_eq!(step_weight(u32::MAX - 1, u32::MAX), 1);
}

#[test]
fn interpolate_starts_with_the_first_image() {
    let x = filled(3, 2, ColorMode::Opaque, px(200, 100, 50, 255));
    let y = filled(3, 2, ColorMode::Opaque, px(0, 0, 0, 255));
    let frames = interpolate(&x, &y, 10, 100, 10);
    assert_eq!(frames.len(), 10);
    assert_eq!(frames[0].image, x);
    assert_eq!(frames[0].duration_ms, 100);
    assert_eq!(frames[0].index, 0);
    for (k, f) in frames.iter().enumerate().skip(1) {
        assert_eq!(f.duration_ms, 10);
        assert_eq!(f.index, k as u64);
        assert_ne!(f.image, y);
        assert_eq!(f.image, blend_images(&x, &y, step_weight(k as u32, 10)));
    }
    assert_eq!(frames[1].image.pixels[0], px(180, 90, 45, 255));
}

#[test]
fn interpolate_example_pixel() {
    let x = filled(1, 1, ColorMode::Opaque, px(200, 100, 50, 255));
    let y = filled(1, 1, ColorMode::Opaque, px(0, 0, 0, 255));
    let frames = interpolate(&x, &y, 10, 100, 10);
    assert_eq!(frames[1].image.pixels, vec![px(180, 90, 45, 255)]);
    assert_eq!(frames[9].image.pixels, vec![px(20, 10, 5, 255)]);
}

#[test]
fn interpolate_uses_alpha_if_either_image_has_it() {
    let x = filled(2, 2, ColorMode::Opaque, px(200, 10, 0, 128));
    let y = filled(2, 2, ColorMode::Alpha, px(40, 250, 90, 64));
    let frames = interpolate(&x, &y, 4, 1000, 250);
    assert_eq!(frames[0].image.mode, ColorMode::Opaque);
    assert_eq!(frames[2].image.mode, ColorMode::Alpha);
    assert_eq!(frames[2].image.pixels[3], px(55, 33, 11, 96));
}

#[test]
fn interpolate_with_one_frame_is_the_first_image_alone() {
    let x = filled(2, 1, ColorMode::Alpha, px(1, 2, 3, 4));
    let y = filled(2, 1, ColorMode::Alpha, px(5, 6, 7, 8));
    let frames = interpolate(&x, &y, 1, 700, 5);
    assert_eq!(frames.len(), 1);
    assert_eq!(frames[0].image, x);
    assert_eq!(frames[0].duration_ms, 700);
}

#[test]
fn blended_frames_hold_each_pixel_blend() {
    let x = Image::new(2, 1, ColorMode::Opaque, vec![px(255, 0, 0, 255), px(0, 255, 0, 255)]).unwrap();
    let y = Image::new(2, 1, ColorMode::Opaque, vec![px(0, 0, 255, 255), px(9, 9, 9, 255)]).unwrap();
    let frames = interpolate(&x, &y, 2, 1, 1);
    let w = step_weight(1, 2);
    assert_eq!(w, 128);
    assert_eq!(frames[1].image.pixels[0], blend(x.pixels[0], y.pixels[0], w, ColorMode::Opaque));
    assert_eq!(frames[1].image.pixels[1], blend(x.pixels[1], y.pixels[1], w, ColorMode::Opaque));
    assert_eq!(frames[1].image.pixels[0], px(128, 0, 127, 255));
}

#[test]
fn schedule_covers_the_whole_loop() {
    let images = vec![
        filled(2, 2, ColorMode::Opaque, px(255, 0, 0, 255)),
        filled(2, 2, ColorMode::Opaque, px(0, 255, 0, 255)),
        filled(2, 2, ColorMode::Opaque, px(0, 0, 255, 255)),
    ];
    let cfg = config(4, 500, 25);
    let frames = schedule(&images, &cfg);
    assert_eq!(frames.len(), 12);
    for (j, f) in frames.iter().enumerate() {
        assert_eq!(f.index, j as u64);
        assert_eq!(f.duration_ms, if j % 4 == 0 { 500 } else { 25 });
    }
    assert_eq!(frames[0].image, images[0]);
    assert_eq!(frames[4].image, images[1]);
    assert_eq!(frames[8].image, images[2]);
    // the last transition goes back to the first image
    assert_eq!(frames[9].image, blend_images(&images[2], &images[0], 192));
    assert_eq!(frames[11].image.pixels[0], px(191, 0, 64, 255));
}

#[test]
fn schedule_is_the_transitions_in_order() {
    let images = vec![
        filled(1, 3, ColorMode::Alpha, px(10, 20, 30, 40)),
        filled(1, 3, ColorMode::Opaque, px(250, 240, 230, 255)),
    ];
    let cfg = config(3, 100, 10);
    let frames = schedule(&images, &cfg);
    let mut joined = transition(&images, &cfg, 0);
    joined.extend(transition(&images, &cfg, 1));
    assert_eq!(frames, joined);
    assert_eq!(frames.len(), 6);
    assert_eq!(transition(&images, &cfg, 1)[0].index, 3);
}

#[test]
fn default_config() {
    let cfg = ScheduleConfig::default();
    assert_eq!(cfg.frame_count, 10);
    assert_eq!(cfg.endpoint_duration_ms, 1000);
    assert_eq!(cfg.step_duration_ms, 100);
    assert_eq!(cfg.speed, 10);
    assert_eq!(ScheduleConfig::default_step_duration(3), 333);
    assert_eq!(ScheduleConfig::default_step_duration(1), 1000);
    assert_eq!(ScheduleConfig::default_step_duration(2000), 0);
}
