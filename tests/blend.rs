use fade::pixel::{blend, combined_mode, ColorMode, Pixel};

fn px(r: u8, g: u8, b: u8, a: u8) -> Pixel {
    Pixel { r, g, b, a }
}

#[test]
fn opaque_blend_of_example_pixels() {
    let x = px(200, 100, 50, 255);
    let y = px(0, 0, 0, 255);
    assert_eq!(blend(x, y, 230, ColorMode::Opaque), px(180, 90, 45, 255));
}

#[test]
fn opaque_blend_at_the_extreme_weights() {
    let x = px(200, 100, 50, 255);
    let y = px(10, 20, 30, 255);
    assert_eq!(blend(x, y, 255, ColorMode::Opaque), x);
    assert_eq!(blend(x, y, 0, ColorMode::Opaque), px(10, 20, 30, 255));
}

#[test]
fn opaque_blend_truncates() {
    assert_eq!(blend(px(200, 10, 0, 255), px(40, 250, 90, 255), 128, ColorMode::Opaque), px(120, 129, 44, 255));
}

#[test]
fn opaque_blend_keeps_the_first_alpha() {
    assert_eq!(blend(px(0, 0, 0, 17), px(255, 255, 255, 200), 100, ColorMode::Opaque).a, 17);
}

#[test]
fn alpha_blend_weighs_colours_by_alpha() {
    assert_eq!(blend(px(200, 10, 0, 128), px(40, 250, 90, 64), 128, ColorMode::Alpha), px(55, 33, 11, 96));
    assert_eq!(blend(px(200, 100, 50, 255), px(0, 0, 0, 255), 230, ColorMode::Alpha), px(180, 90, 45, 255));
}

#[test]
fn blend_with_itself_is_identity_when_opaque() {
    let p = px(12, 200, 99, 255);
    for w in 0..=255u8 {
        assert_eq!(blend(p, p, w, ColorMode::Opaque), p);
        assert_eq!(blend(p, p, w, ColorMode::Alpha), p);
    }
    let q = px(12, 200, 99, 40);
    for w in 0..=255u8 {
        assert_eq!(blend(q, q, w, ColorMode::Opaque), q);
    }
    let black = px(0, 0, 0, 31);
    for w in 0..=255u8 {
        assert_eq!(blend(black, black, w, ColorMode::Alpha), black);
    }
}

#[test]
fn alpha_blend_with_itself_darkens_partial_alpha() {
    let p = px(100, 100, 100, 100);
    assert_eq!(blend(p, p, 77, ColorMode::Alpha), px(39, 39, 39, 100));
}

#[test]
fn mixed_modes_combine_to_alpha() {
    assert_eq!(combined_mode(ColorMode::Opaque, ColorMode::Opaque), ColorMode::Opaque);
    assert_eq!(combined_mode(ColorMode::Opaque, ColorMode::Alpha), ColorMode::Alpha);
    assert_eq!(combined_mode(ColorMode::Alpha, ColorMode::Opaque), ColorMode::Alpha);
    assert_eq!(combined_mode(ColorMode::Alpha, ColorMode::Alpha), ColorMode::Alpha);
}

#[test]
fn alpha_blend_divides_by_255_squared() {
    // the numerator is 16 * 16 * 254 = 65024, just under 255 * 255
    assert_eq!(blend(px(16, 16, 16, 16), px(0, 0, 0, 0), 254, ColorMode::Alpha), px(0, 0, 0, 15));
    assert_eq!(blend(px(255, 255, 255, 255), px(0, 0, 0, 255), 1, ColorMode::Alpha), px(1, 1, 1, 255));
}
