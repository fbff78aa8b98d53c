//! The pixel and color model: packing the four 8-bit channels into a `u32`,
//! a fixed-point luma/chroma distance between two pixels, a threshold
//! comparison built on the same decomposition, and weighted blending.

use vstd::prelude::*;

verus! {

/// Fixed-point scale carried by every luma/chroma value: the fractional
/// YUV coefficients are multiplied by 1_000_000 so they stay exact integers.
pub const YUV_ONE: i64 = 1_000_000;

/// Distance reported when exactly one of two pixels is fully transparent:
/// large enough to dominate any distance between two opaque pixels, so a
/// transparent/opaque boundary always reads as an edge.
pub const DIFF_TRANSPARENT: u64 = 1_000_000_000_000;

/// Red channel of a packed pixel (bits 24..32).
pub open spec fn spec_red(p: u32) -> u8 {
    (p >> 24) as u8
}

/// Green channel of a packed pixel (bits 16..24).
pub open spec fn spec_green(p: u32) -> u8 {
    (p >> 16) as u8
}

/// Blue channel of a packed pixel (bits 8..16).
pub open spec fn spec_blue(p: u32) -> u8 {
    (p >> 8) as u8
}

/// Alpha channel of a packed pixel (bits 0..8).
pub open spec fn spec_alpha(p: u32) -> u8 {
    p as u8
}

/// Packs four 8-bit channels into one pixel, red in the top byte.
pub open spec fn spec_pack(r: u8, g: u8, b: u8, a: u8) -> u32 {
    ((r as u32) << 24) | ((g as u32) << 16) | ((b as u32) << 8) | (a as u32)
}

/// Extracting the channels of a packed pixel gives back exactly the bytes
/// that were packed: the representation is lossless.
pub proof fn lemma_pack_unpack(r: u8, g: u8, b: u8, a: u8)
    ensures
        spec_red(spec_pack(r, g, b, a)) == r,
        spec_green(spec_pack(r, g, b, a)) == g,
        spec_blue(spec_pack(r, g, b, a)) == b,
        spec_alpha(spec_pack(r, g, b, a)) == a,
{
    assert(spec_red(spec_pack(r, g, b, a)) == r) by (bit_vector);
    assert(spec_green(spec_pack(r, g, b, a)) == g) by (bit_vector);
    assert(spec_blue(spec_pack(r, g, b, a)) == b) by (bit_vector);
    assert(spec_alpha(spec_pack(r, g, b, a)) == a) by (bit_vector);
}

/// Re-packing the four channels of a pixel gives back the pixel itself.
pub proof fn lemma_unpack_pack(p: u32)
    ensures
        spec_pack(spec_red(p), spec_green(p), spec_blue(p), spec_alpha(p)) == p,
{
    assert(spec_pack(spec_red(p), spec_green(p), spec_blue(p), spec_alpha(p)) == p)
        by (bit_vector);
}

/// Red channel of `p`.
pub fn red_u8(p: u32) -> (r: u8)
    ensures
        r == spec_red(p),
{
    (p >> 24) as u8
}

/// Green channel of `p`.
pub fn green_u8(p: u32) -> (r: u8)
    ensures
        r == spec_green(p),
{
    (p >> 16) as u8
}

/// Blue channel of `p`.
pub fn blue_u8(p: u32) -> (r: u8)
    ensures
        r == spec_blue(p),
{
    (p >> 8) as u8
}

/// Alpha channel of `p`; 0 means fully transparent.
pub fn alpha_u8(p: u32) -> (r: u8)
    ensures
        r == spec_alpha(p),
{
    p as u8
}

/// Packs four 8-bit channels into one pixel value; the inverse of the
/// channel extractors, with an exact round-trip.
pub fn color_u8_to_u32(r: u8, g: u8, b: u8, a: u8) -> (p: u32)
    ensures
        p == spec_pack(r, g, b, a),
        spec_red(p) == r,
        spec_green(p) == g,
        spec_blue(p) == b,
        spec_alpha(p) == a,
{
    proof {
        lemma_pack_unpack(r, g, b, a);
    }
    ((r as u32) << 24) | ((g as u32) << 16) | ((b as u32) << 8) | (a as u32)
}

/// Luma of an RGB triple, scaled by `YUV_ONE`
/// (coefficients 0.299, 0.587, 0.114).
pub open spec fn spec_luma(r: int, g: int, b: int) -> int {
    299000 * r + 587000 * g + 114000 * b
}

/// First chroma component, scaled by `YUV_ONE`
/// (coefficients -0.168736, -0.331264, 0.5).
pub open spec fn spec_chroma_u(r: int, g: int, b: int) -> int {
    500000 * b - 168736 * r - 331264 * g
}

/// Second chroma component, scaled by `YUV_ONE`
/// (coefficients 0.5, -0.418688, -0.081312).
pub open spec fn spec_chroma_v(r: int, g: int, b: int) -> int {
    500000 * r - 418688 * g - 81312 * b
}

/// Distance between two ints.
pub open spec fn spec_abs_diff(a: int, b: int) -> int {
    if a >= b {
        a - b
    } else {
        b - a
    }
}

/// A color in the luma/chroma decomposition used for edge detection.
/// Each component carries the `YUV_ONE` fixed-point scale.
pub struct Yuv {
    pub y: i64,
    pub u: i64,
    pub v: i64,
}

/// Converts an RGB triple into the scaled luma/chroma space.
pub fn rgb_to_yuv(r: u8, g: u8, b: u8) -> (c: Yuv)
    ensures
        c.y == spec_luma(r as int, g as int, b as int),
        c.u == spec_chroma_u(r as int, g as int, b as int),
        c.v == spec_chroma_v(r as int, g as int, b as int),
{
    let ri: i64 = r as i64;
    let gi: i64 = g as i64;
    let bi: i64 = b as i64;
    let y: i64 = 299000 * ri + 587000 * gi + 114000 * bi;
    let u: i64 = 500000 * bi - 168736 * ri - 331264 * gi;
    let v: i64 = 500000 * ri - 418688 * gi - 81312 * bi;
    Yuv { y, u, v }
}

/// Luma/chroma decomposition of a pixel's RGB channels.
pub fn yuv(p: u32) -> (c: Yuv)
    ensures
        c.y == spec_luma(spec_red(p) as int, spec_green(p) as int, spec_blue(p) as int),
        c.u == spec_chroma_u(spec_red(p) as int, spec_green(p) as int, spec_blue(p) as int),
        c.v == spec_chroma_v(spec_red(p) as int, spec_green(p) as int, spec_blue(p) as int),
{
    rgb_to_yuv(red_u8(p), green_u8(p), blue_u8(p))
}

/// Weighted distance between two pixels: the luma/chroma decomposition of
/// the per-channel differences, combined with weights 48:7:6 so that luma
/// dominates. Two fully transparent pixels are identical; a transparent
/// pixel against a non-transparent one is maximally distant.
pub open spec fn spec_diff(a: u32, b: u32) -> int {
    if spec_alpha(a) == 0 && spec_alpha(b) == 0 {
        0
    } else if spec_alpha(a) == 0 || spec_alpha(b) == 0 {
        DIFF_TRANSPARENT as int
    } else {
        let dr: int = spec_abs_diff(spec_red(a) as int, spec_red(b) as int);
        let dg: int = spec_abs_diff(spec_green(a) as int, spec_green(b) as int);
        let db: int = spec_abs_diff(spec_blue(a) as int, spec_blue(b) as int);
        48 * spec_luma(dr, dg, db) + 7 * spec_chroma_u(dr, dg, db) + 6 * spec_chroma_v(
            dr,
            dg,
            db,
        )
    }
}

/// Absolute difference of two scaled luma/chroma components.
fn abs_diff_i64(a: i64, b: i64) -> (d: i64)
    requires
        a - b <= i64::MAX,
        b - a <= i64::MAX,
    ensures
        d as int == spec_abs_diff(a as int, b as int),
{
    if a >= b {
        a - b
    } else {
        b - a
    }
}

/// Absolute difference of two channel bytes.
fn abs_diff_u8(a: u8, b: u8) -> (d: u8)
    ensures
        d as int == spec_abs_diff(a as int, b as int),
{
    if a >= b {
        a - b
    } else {
        b - a
    }
}

/// The weighted luma/chroma distance between two pixels.
///
/// The distance of a fully transparent pixel to a non-transparent one is
/// the fixed sentinel `DIFF_TRANSPARENT`, so such a boundary is always
/// detected as an edge; two fully transparent pixels have distance 0.
pub fn diff(pixel_a: u32, pixel_b: u32) -> (d: u64)
    ensures
        d == spec_diff(pixel_a, pixel_b),
        d <= DIFF_TRANSPARENT,
        spec_alpha(pixel_a) == 0 && spec_alpha(pixel_b) == 0 ==> d == 0,
        (spec_alpha(pixel_a) == 0) != (spec_alpha(pixel_b) == 0) ==> d == DIFF_TRANSPARENT,
{
    let alpha_a: u8 = alpha_u8(pixel_a);
    let alpha_b: u8 = alpha_u8(pixel_b);

    if alpha_a == 0 && alpha_b == 0 {
        return 0;
    }
    if alpha_a == 0 || alpha_b == 0 {
        return DIFF_TRANSPARENT;
    }

    let r: u8 = abs_diff_u8(red_u8(pixel_a), red_u8(pixel_b));
    let g: u8 = abs_diff_u8(green_u8(pixel_a), green_u8(pixel_b));
    let b: u8 = abs_diff_u8(blue_u8(pixel_a), blue_u8(pixel_b));

    let c: Yuv = rgb_to_yuv(r, g, b);
    let weight: i64 = c.y * 48 + c.u * 7 + c.v * 6;
    weight as u64
}

/// Thresholds for `is_equal`, one per luma/chroma component, carrying the
/// `YUV_ONE` fixed-point scale (48, 7 and 6 in channel units).
pub const THRESHOLD_Y: i64 = 48 * YUV_ONE;

pub const THRESHOLD_U: i64 = 7 * YUV_ONE;

pub const THRESHOLD_V: i64 = 6 * YUV_ONE;

/// Whether two pixels count as equal for edge detection: the same
/// transparency rules as `spec_diff`, otherwise each luma/chroma component
/// of the two pixels must lie within its threshold.
pub open spec fn spec_is_equal(a: u32, b: u32) -> bool {
    if spec_alpha(a) == 0 && spec_alpha(b) == 0 {
        true
    } else if spec_alpha(a) == 0 || spec_alpha(b) == 0 {
        false
    } else {
        let ya: int = spec_luma(spec_red(a) as int, spec_green(a) as int, spec_blue(a) as int);
        let ua: int = spec_chroma_u(spec_red(a) as int, spec_green(a) as int, spec_blue(a) as int);
        let va: int = spec_chroma_v(spec_red(a) as int, spec_green(a) as int, spec_blue(a) as int);
        let yb: int = spec_luma(spec_red(b) as int, spec_green(b) as int, spec_blue(b) as int);
        let ub: int = spec_chroma_u(spec_red(b) as int, spec_green(b) as int, spec_blue(b) as int);
        let vb: int = spec_chroma_v(spec_red(b) as int, spec_green(b) as int, spec_blue(b) as int);
        spec_abs_diff(ya, yb) <= THRESHOLD_Y && spec_abs_diff(ua, ub) <= THRESHOLD_U
            && spec_abs_diff(va, vb) <= THRESHOLD_V
    }
}

/// Threshold-based pixel equality: the boolean sibling of `diff`, built on
/// the same luma/chroma decomposition and the same transparency rules.
pub fn is_equal(pixel_a: u32, pixel_b: u32) -> (eq: bool)
    ensures
        eq == spec_is_equal(pixel_a, pixel_b),
{
    let alpha_a: u8 = alpha_u8(pixel_a);
    let alpha_b: u8 = alpha_u8(pixel_b);

    if alpha_a == 0 && alpha_b == 0 {
        return true;
    }
    if alpha_a == 0 || alpha_b == 0 {
        return false;
    }

    let yuv_a: Yuv = yuv(pixel_a);
    let yuv_b: Yuv = yuv(pixel_b);

    if abs_diff_i64(yuv_a.y, yuv_b.y) > THRESHOLD_Y {
        return false;
    }
    if abs_diff_i64(yuv_a.u, yuv_b.u) > THRESHOLD_U {
        return false;
    }
    if abs_diff_i64(yuv_a.v, yuv_b.v) > THRESHOLD_V {
        return false;
    }
    true
}

/// One channel of a weighted average: `(q1*ca + q2*cb) / (q1 + q2)`,
/// rounded toward zero.
pub open spec fn spec_blend_channel(ca: u8, cb: u8, q1: int, q2: int) -> int {
    (q1 * ca + q2 * cb) / (q1 + q2)
}

/// Weighted average of two pixels, applied independently to red, green,
/// blue and alpha (alpha is averaged like a color channel).
pub open spec fn spec_blend(a: u32, b: u32, q1: int, q2: int) -> u32 {
    spec_pack(
        spec_blend_channel(spec_red(a), spec_red(b), q1, q2) as u8,
        spec_blend_channel(spec_green(a), spec_green(b), q1, q2) as u8,
        spec_blend_channel(spec_blue(a), spec_blue(b), q1, q2) as u8,
        spec_blend_channel(spec_alpha(a), spec_alpha(b), q1, q2) as u8,
    )
}

/// A blended channel stays in channel range.
proof fn lemma_blend_channel_bound(ca: u8, cb: u8, q1: int, q2: int)
    requires
        q1 >= 0,
        q2 >= 0,
        q1 + q2 > 0,
    ensures
        0 <= spec_blend_channel(ca, cb, q1, q2) <= 255,
{
    let num: int = q1 * ca + q2 * cb;
    assert(0 <= num && num <= (q1 + q2) * 255) by (nonlinear_arith)
        requires
            q1 >= 0,
            q2 >= 0,
            ca <= 255,
            cb <= 255,
            num == q1 * ca + q2 * cb,
    ;
    assert(num / (q1 + q2) >= 0) by {
        vstd::arithmetic::div_mod::lemma_div_pos_is_pos(num, q1 + q2);
    }
    assert(num / (q1 + q2) <= 255) by (nonlinear_arith)
        requires
            q1 + q2 > 0,
            0 <= num <= (q1 + q2) * 255,
    ;
}

/// One executable blended channel.
fn blend_channel(ca: u8, cb: u8, q1: u64, q2: u64) -> (c: u8)
    requires
        q1 <= u32::MAX,
        q2 <= u32::MAX,
        q1 + q2 > 0,
    ensures
        c as int == spec_blend_channel(ca, cb, q1 as int, q2 as int),
{
    proof {
        lemma_blend_channel_bound(ca, cb, q1 as int, q2 as int);
        assert(q1 * (ca as u64) <= q1 * 255 && q2 * (cb as u64) <= q2 * 255)
            by (nonlinear_arith)
            requires
                ca <= 255,
                cb <= 255,
                q1 >= 0,
                q2 >= 0,
        ;
    }
    let num: u64 = q1 * (ca as u64) + q2 * (cb as u64);
    (num / (q1 + q2)) as u8
}

/// Blends two pixels with the given weights, channel by channel, alpha
/// treated like a color channel.
pub fn blend(pixel_a: u32, pixel_b: u32, q1: u32, q2: u32) -> (p: u32)
    requires
        q1 + q2 > 0,
    ensures
        p == spec_blend(pixel_a, pixel_b, q1 as int, q2 as int),
{
    let q1w: u64 = q1 as u64;
    let q2w: u64 = q2 as u64;

    let r: u8 = blend_channel(red_u8(pixel_a), red_u8(pixel_b), q1w, q2w);
    let g: u8 = blend_channel(green_u8(pixel_a), green_u8(pixel_b), q1w, q2w);
    let b: u8 = blend_channel(blue_u8(pixel_a), blue_u8(pixel_b), q1w, q2w);
    let a: u8 = blend_channel(alpha_u8(pixel_a), alpha_u8(pixel_b), q1w, q2w);

    color_u8_to_u32(r, g, b, a)
}

/// Blending with the full weight on one side returns that side unchanged.
pub proof fn lemma_blend_full_weight(a: u32, b: u32)
    ensures
        spec_blend(a, b, 1, 0) == a,
        spec_blend(a, b, 0, 1) == b,
{
    lemma_unpack_pack(a);
    lemma_unpack_pack(b);
}

/// 75% of `dst`, 25% of `src`.
pub fn blend_64w(dst: u32, src: u32) -> (p: u32)
    ensures
        p == spec_blend(dst, src, 3, 1),
{
    blend(dst, src, 3, 1)
}

/// Equal mix of `dst` and `src`.
pub fn blend_128w(dst: u32, src: u32) -> (p: u32)
    ensures
        p == spec_blend(dst, src, 1, 1),
{
    blend(dst, src, 1, 1)
}

/// 25% of `dst`, 75% of `src`.
pub fn blend_192w(dst: u32, src: u32) -> (p: u32)
    ensures
        p == spec_blend(dst, src, 1, 3),
{
    blend(dst, src, 1, 3)
}

/// Double-pixel horizontal interpolation: a strong and a shallow blend of
/// the candidate edge pixel into two neighboring destination slots.
pub fn left2(n3: u32, n2: u32, pixel: u32) -> (r: (u32, u32))
    ensures
        r.0 == spec_blend(n3, pixel, 1, 3),
        r.1 == spec_blend(n2, pixel, 3, 1),
{
    (blend_192w(n3, pixel), blend_64w(n2, pixel))
}

/// Double-pixel vertical interpolation, the symmetric sibling of `left2`.
pub fn up2(n3: u32, n1: u32, pixel: u32) -> (r: (u32, u32))
    ensures
        r.0 == spec_blend(n3, pixel, 1, 3),
        r.1 == spec_blend(n1, pixel, 3, 1),
{
    (blend_192w(n3, pixel), blend_64w(n1, pixel))
}

/// Single 45-degree diagonal blend at equal weight.
pub fn dia(n3: u32, pixel: u32) -> (p: u32)
    ensures
        p == spec_blend(n3, pixel, 1, 1),
{
    blend_128w(n3, pixel)
}

} // verus!
