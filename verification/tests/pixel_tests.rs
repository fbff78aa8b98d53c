use xbr::pixel::{
    alpha_u8, blend, blend_128w, blend_192w, blend_64w, blue_u8, color_u8_to_u32, dia, diff,
    green_u8, is_equal, left2, red_u8, rgb_to_yuv, up2, yuv, DIFF_TRANSPARENT,
};

const WHITE: u32 = 0xFFFFFFFF;
const BLACK: u32 = 0x000000FF;

fn gray(v: u8) -> u32 {
    color_u8_to_u32(v, v, v, 0xFF)
}

#[test]
fn channel_roundtrip_samples() {
    let samples: [(u8, u8, u8, u8); 8] = [
        (0, 0, 0, 0),
        (255, 255, 255, 255),
        (0x11, 0x22, 0x33, 0x44),
        (1, 0, 0, 0),
        (0, 1, 0, 0),
        (0, 0, 1, 0),
        (0, 0, 0, 1),
        (200, 100, 50, 25),
    ];
    for (r, g, b, a) in samples {
        let p = color_u8_to_u32(r, g, b, a);
        assert_eq!(red_u8(p), r);
        assert_eq!(green_u8(p), g);
        assert_eq!(blue_u8(p), b);
        assert_eq!(alpha_u8(p), a);
    }
}

#[test]
fn pack_layout() {
    assert_eq!(color_u8_to_u32(0x11, 0x22, 0x33, 0x44), 0x11223344);
    assert_eq!(red_u8(0x11223344), 0x11);
    assert_eq!(green_u8(0x11223344), 0x22);
    assert_eq!(blue_u8(0x11223344), 0x33);
    assert_eq!(alpha_u8(0x11223344), 0x44);
}

#[test]
fn test() {
    // The pixel 2 has alpha 2 and the pixel 0 is fully transparent, so
    // their distance is the transparent-boundary sentinel.
    let d = diff(0, 2);
    println!("{d}");
    assert_eq!(d, DIFF_TRANSPARENT);
}

#[test]
fn diff_transparency_rules() {
    // Two fully transparent pixels are identical, whatever their color.
    assert_eq!(diff(0, 0), 0);
    assert_eq!(diff(0x11223300, 0x55667700), 0);
    // Exactly one transparent operand forces the large sentinel distance.
    assert_eq!(diff(0, WHITE), DIFF_TRANSPARENT);
    assert_eq!(diff(WHITE, 0), DIFF_TRANSPARENT);
    assert_eq!(diff(0x11223300, BLACK), DIFF_TRANSPARENT);
    assert_eq!(DIFF_TRANSPARENT, 1_000_000_000_000);
}

#[test]
fn diff_formula_exact() {
    // Identical opaque pixels have distance 0.
    assert_eq!(diff(WHITE, WHITE), 0);
    // Single-channel differences; the collapsed per-channel weights are
    // 16_170_848 (red), 23_345_024 (green) and 8_484_128 (blue) after the
    // 48:7:6 luma/chroma combination, scaled by 1_000_000.
    let base = color_u8_to_u32(0, 0, 0, 255);
    assert_eq!(diff(color_u8_to_u32(10, 0, 0, 255), base), 161_708_480);
    assert_eq!(diff(color_u8_to_u32(0, 1, 0, 255), base), 23_345_024);
    assert_eq!(diff(color_u8_to_u32(0, 0, 1, 255), base), 8_484_128);
    // The maximal opaque-to-opaque distance: white against black.
    assert_eq!(diff(WHITE, BLACK), 12_240_000_000);
    assert_eq!(diff(BLACK, WHITE), 12_240_000_000);
}

#[test]
fn yuv_decomposition() {
    let c = rgb_to_yuv(255, 0, 0);
    assert_eq!(c.y, 76_245_000);
    assert_eq!(c.u, -43_027_680);
    assert_eq!(c.v, 127_500_000);
    let c2 = yuv(color_u8_to_u32(255, 0, 0, 255));
    assert_eq!(c2.y, 76_245_000);
    assert_eq!(c2.u, -43_027_680);
    assert_eq!(c2.v, 127_500_000);
    // Grays have no chroma.
    let c3 = rgb_to_yuv(100, 100, 100);
    assert_eq!(c3.y, 100_000_000);
    assert_eq!(c3.u, 0);
    assert_eq!(c3.v, 0);
}

#[test]
fn is_equal_thresholds() {
    assert!(is_equal(WHITE, WHITE));
    assert!(!is_equal(WHITE, BLACK));
    // Transparency rules mirror the distance function.
    assert!(is_equal(0, 0));
    assert!(is_equal(0x11223300, 0x55667700));
    assert!(!is_equal(0, WHITE));
    assert!(!is_equal(BLACK, 0));
    // Grays differ only in luma: the threshold there is 48 channel units.
    assert!(is_equal(gray(100), gray(148)));
    assert!(!is_equal(gray(100), gray(149)));
}

#[test]
fn blend_boundary_cases() {
    let pairs: [(u32, u32); 4] = [
        (WHITE, BLACK),
        (0x11223344, 0x55667788),
        (0, WHITE),
        (0xDEADBEEF, 0x01020304),
    ];
    for (a, b) in pairs {
        assert_eq!(blend(a, b, 1, 0), a);
        assert_eq!(blend(a, b, 0, 1), b);
    }
}

#[test]
fn blend_ratios_exact() {
    // 3:1, 1:1 and 1:3 mixes of white and opaque black, channel by
    // channel, alpha blended like a color channel.
    assert_eq!(blend_64w(WHITE, BLACK), 0xBFBFBFFF);
    assert_eq!(blend_128w(WHITE, BLACK), 0x7F7F7FFF);
    assert_eq!(blend_192w(WHITE, BLACK), 0x3F3F3FFF);
    // Blending toward the transparent sentinel also dims alpha.
    assert_eq!(blend_64w(WHITE, 0), 0xBFBFBFBF);
    assert_eq!(blend_192w(WHITE, 0), 0x3F3F3F3F);
}

#[test]
fn blend_helpers() {
    let out = left2(WHITE, WHITE, BLACK);
    assert_eq!(out.0, 0x3F3F3FFF);
    assert_eq!(out.1, 0xBFBFBFFF);
    let out2 = up2(WHITE, WHITE, BLACK);
    assert_eq!(out2.0, 0x3F3F3FFF);
    assert_eq!(out2.1, 0xBFBFBFFF);
    assert_eq!(dia(WHITE, BLACK), 0x7F7F7FFF);
}
