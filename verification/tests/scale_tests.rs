use xbr::xbr::{apply_x2, get_buffer_for_size, scale_2x, try_scale_2x};

const WHITE: u32 = 0xFFFFFFFF;
const BLACK: u32 = 0x000000FF;

fn quad(scaled: &[u32], width: u32, x: u32, y: u32) -> [u32; 4] {
    let w2 = (width * 2) as usize;
    let gx = (x * 2) as usize;
    let gy = (y * 2) as usize;
    [
        scaled[gy * w2 + gx],
        scaled[gy * w2 + gx + 1],
        scaled[(gy + 1) * w2 + gx],
        scaled[(gy + 1) * w2 + gx + 1],
    ]
}

#[test]
fn determinism() {
    let image = vec![
        0x11223344, 0x55667788, 0x99AABBCC, WHITE, BLACK, 0x00FF00FF, 0xFF0000FF, 0x0000FFFF,
        0x80808080, 0x12345678, 0xCAFEBABE, 0xFEEDFACE,
    ];
    let first = scale_2x(&image, 4, 3);
    let second = scale_2x(&image, 4, 3);
    assert_eq!(first, second);
}

#[test]
fn size_invariant() {
    let cases: [(u32, u32); 6] = [(0, 0), (0, 5), (5, 0), (1, 1), (3, 3), (4, 2)];
    for (w, h) in cases {
        let image = vec![0x7F7F7FFF; (w * h) as usize];
        let scaled = scale_2x(&image, w, h);
        assert_eq!(scaled.len(), (4 * w * h) as usize);
        if w == 0 || h == 0 {
            assert!(scaled.is_empty());
        }
    }
}

#[test]
fn uniform_fixed_point_away_from_corners() {
    let p: u32 = 0x40E020FF;
    let image = vec![p; 9];
    let scaled = scale_2x(&image, 3, 3);
    // Every output pixel whose source pixel is not an image corner keeps
    // the uniform color: no false edges on flat color.
    for (x, y) in [(1, 0), (0, 1), (1, 1), (2, 1), (1, 2)] {
        assert_eq!(quad(&scaled, 3, x, y), [p; 4]);
    }
}

#[test]
fn uniform_transparent_is_fixed_point_everywhere() {
    let image = vec![0u32; 9];
    let scaled = scale_2x(&image, 3, 3);
    assert!(scaled.iter().all(|&q| q == 0));
}

#[test]
fn uniform_corner_blends_toward_sentinel() {
    // At an image corner two out-of-bounds sentinel reads meet, the edge
    // patterns fire, and the corner's own quadrants blend toward
    // transparent black; pinned from the decision tree.
    let image = vec![WHITE; 9];
    let scaled = scale_2x(&image, 3, 3);
    assert_eq!(
        quad(&scaled, 3, 0, 0),
        [0x0F0F0F0F, 0xBFBFBFBF, 0xBFBFBFBF, WHITE]
    );
}

#[test]
fn border_sentinel_1x1() {
    // A 1x1 source: every neighbor is the sentinel 0. For a transparent
    // source pixel every comparison collapses and all four outputs equal
    // the source. For an opaque pixel the transparent sentinel forces the
    // shallow-blend path in all four sections, so each output is the 3:1
    // mix of the pixel with transparent black.
    let transparent = scale_2x(&vec![0u32], 1, 1);
    assert_eq!(transparent, vec![0, 0, 0, 0]);

    let white = scale_2x(&vec![WHITE], 1, 1);
    assert_eq!(white, vec![0xBFBFBFBF; 4]);

    let black = scale_2x(&vec![BLACK], 1, 1);
    assert_eq!(black, vec![0x000000BF; 4]);
}

#[test]
fn checkerboard_2x2_regression() {
    // The 2x2 checkerboard scaled to 4x4: exact values pinned from the
    // decision tree, kept as a regression fixture.
    let image = vec![WHITE, BLACK, BLACK, WHITE];
    let scaled = scale_2x(&image, 2, 2);
    let expected: Vec<u32> = vec![
        0x0F0F0F0F, 0x8F8F8FBF, 0x3F3F3FCF, 0x0000000F,
        0x8F8F8FCF, 0xBFBFBFFF, 0x3F3F3FFF, 0x2F2F2FBF,
        0x2F2F2FBF, 0x3F3F3FFF, 0xBFBFBFFF, 0x8F8F8FCF,
        0x0000000F, 0x2F2F2FBF, 0x8F8F8FCF, 0x0F0F0F0F,
    ];
    assert_eq!(scaled, expected);
}

#[test]
fn apply_x2_matches_scale_2x() {
    let image = vec![WHITE, BLACK, 0x12345678, 0x9ABCDEF0, BLACK, WHITE];
    let (mut buf, out_w, out_h) = get_buffer_for_size(3, 2);
    assert_eq!(out_w, 6);
    assert_eq!(out_h, 4);
    apply_x2(&mut buf, &image, 3, 2);
    assert_eq!(buf, scale_2x(&image, 3, 2));
}

#[test]
fn try_scale_2x_checks_length() {
    let image = vec![WHITE, BLACK, BLACK, WHITE];
    let ok = try_scale_2x(&image, 2, 2);
    assert!(ok.is_some());
    assert_eq!(ok.unwrap(), scale_2x(&image, 2, 2));

    // A length that does not match the declared dimensions is refused
    // before any kernel work.
    assert!(try_scale_2x(&image, 3, 2).is_none());
    assert!(try_scale_2x(&image, 2, 1).is_none());
    assert!(try_scale_2x(&vec![], 1, 1).is_none());
}
