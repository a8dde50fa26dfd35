use ruxel::color::{u16_to_u8, InterimRGB, Rgb, Rgba};

#[test]
fn rgba_new_holds_channels() {
    let c = Rgba::new(1, 2, 3, 4);
    assert_eq!(c.rgba(), (1, 2, 3, 4));
}

#[test]
fn rgba_default_is_opaque_black() {
    let c = Rgba::default();
    assert_eq!(c.rgba(), (0, 0, 0, 255));
}

#[test]
fn clamp_keeps_small_and_caps_large() {
    assert_eq!(u16_to_u8(42), 42);
    assert_eq!(u16_to_u8(255), 255);
    assert_eq!(u16_to_u8(256), 255);
    assert_eq!(u16_to_u8(65535), 255);
}

#[test]
fn rgb_roundtrip_through_interim() {
    let c = Rgb::new(7, 8, 9);
    let back = c.to_interim().to_rgb();
    assert_eq!(back, c);
}

#[test]
fn interim_arithmetic() {
    let a = InterimRGB::new(1, 2, 3);
    let b = InterimRGB::new(10, 20, 30);
    let s = a.add(b);
    assert_eq!((s.r, s.g, s.b), (11, 22, 33));
    let m = a.mul(3);
    assert_eq!((m.r, m.g, m.b), (3, 6, 9));
    let d = b.div(10);
    assert_eq!((d.r, d.g, d.b), (1, 2, 3));
    assert_eq!(InterimRGB::new(10, 20, 33).lightness(), 21);
}

#[test]
fn compositing_half_transparent_red_over_blue() {
    let fg = Rgba::new(255, 0, 0, 128);
    let bg = Rgba::new(0, 0, 255, 255);
    let out = fg.compositing(&bg);
    assert_eq!(out.rgba(), (128, 0, 127, 255));
}

#[test]
fn compositing_opaque_wins() {
    let fg = Rgba::new(10, 20, 30, 255);
    let bg = Rgba::new(200, 200, 200, 200);
    let out = fg.compositing(&bg);
    assert_eq!(out.rgba(), (10, 20, 30, 255));
}

#[test]
fn compositing_fully_transparent_pair_is_black() {
    let fg = Rgba::new(10, 20, 30, 0);
    let bg = Rgba::new(200, 200, 200, 0);
    let out = fg.compositing(&bg);
    assert_eq!(out.rgba(), (0, 0, 0, 0));
}

#[test]
fn lightness_scales_with_alpha() {
    let c = Rgba::new(10, 20, 30, 255);
    assert_eq!(c.lightness(), 20);
    let half = Rgba::new(10, 20, 30, 0);
    assert_eq!(half.lightness(), 0);
}
