//! The xBR interpolation engine: a 21-sample neighborhood kernel per source
//! pixel, four rotated 12-slot sections of it, one shared sampling decision
//! procedure, and the 2x scaling pass over a whole image.

use vstd::prelude::*;

use crate::pixel::{blend_64w, dia, diff, is_equal, left2, up2};
use crate::pixel::{spec_blend, spec_diff, spec_is_equal};

verus! {

/// The 21 samples around a source pixel `e`, named by their offsets:
///
/// ```text
///    a1 b1 c1
/// a0 a  b  c  c4
/// d0 d  e  f  f4
/// g0 g  h  i  i4
///    g5 h5 i5
/// ```
pub struct Kernel {
    pub a1: u32,
    pub b1: u32,
    pub c1: u32,
    pub a0: u32,
    pub a: u32,
    pub b: u32,
    pub c: u32,
    pub c4: u32,
    pub d0: u32,
    pub d: u32,
    pub e: u32,
    pub f: u32,
    pub f4: u32,
    pub g0: u32,
    pub g: u32,
    pub h: u32,
    pub i: u32,
    pub i4: u32,
    pub g5: u32,
    pub h5: u32,
    pub i5: u32,
}

/// Twelve kernel samples relabeled into canonical positions: the current
/// pixel and its down-right neighborhood. Each of the four rotational
/// symmetries of the kernel maps onto this one shape, so a single sampling
/// procedure serves all four destination quadrants.
pub struct KernelSection {
    pub e: u32,
    pub i: u32,
    pub h: u32,
    pub f: u32,
    pub g: u32,
    pub c: u32,
    pub d: u32,
    pub b: u32,
    pub f4: u32,
    pub i4: u32,
    pub h5: u32,
    pub i5: u32,
}

/// The source pixel at `(x, y)`, or the transparent sentinel `0` for any
/// coordinate outside the image bounds.
pub open spec fn spec_pixel_at(img: Seq<u32>, width: int, height: int, x: int, y: int) -> u32 {
    if 0 <= x < width && 0 <= y < height {
        img[y * width + x]
    } else {
        0u32
    }
}

/// Reads one source pixel, substituting the sentinel `0` outside bounds.
pub fn pixel_at(image: &Vec<u32>, width: u32, height: u32, x: i64, y: i64) -> (p: u32)
    requires
        image@.len() == width * height,
    ensures
        p == spec_pixel_at(image@, width as int, height as int, x as int, y as int),
{
    if x < 0 || x >= width as i64 || y < 0 || y >= height as i64 {
        0
    } else {
        let len: usize = image.len();
        proof {
            assert((y as int) * (width as int) + (x as int) < (width as int) * (height as int)
                && 0 <= (y as int) * (width as int)) by (nonlinear_arith)
                requires
                    0 <= x < width as i64,
                    0 <= y < height as i64,
            ;
        }
        let idx: u64 = (y as u64) * (width as u64) + (x as u64);
        image[idx as usize]
    }
}

/// The full neighborhood kernel of source coordinate `(x, y)`.
pub open spec fn spec_kernel(img: Seq<u32>, width: int, height: int, x: int, y: int) -> Kernel {
    Kernel {
        a1: spec_pixel_at(img, width, height, x - 1, y - 2),
        b1: spec_pixel_at(img, width, height, x, y - 2),
        c1: spec_pixel_at(img, width, height, x + 1, y - 2),
        a0: spec_pixel_at(img, width, height, x - 2, y - 1),
        a: spec_pixel_at(img, width, height, x - 1, y - 1),
        b: spec_pixel_at(img, width, height, x, y - 1),
        c: spec_pixel_at(img, width, height, x + 1, y - 1),
        c4: spec_pixel_at(img, width, height, x + 2, y - 1),
        d0: spec_pixel_at(img, width, height, x - 2, y),
        d: spec_pixel_at(img, width, height, x - 1, y),
        e: spec_pixel_at(img, width, height, x, y),
        f: spec_pixel_at(img, width, height, x + 1, y),
        f4: spec_pixel_at(img, width, height, x + 2, y),
        g0: spec_pixel_at(img, width, height, x - 2, y + 1),
        g: spec_pixel_at(img, width, height, x - 1, y + 1),
        h: spec_pixel_at(img, width, height, x, y + 1),
        i: spec_pixel_at(img, width, height, x + 1, y + 1),
        i4: spec_pixel_at(img, width, height, x + 2, y + 1),
        g5: spec_pixel_at(img, width, height, x - 1, y + 2),
        h5: spec_pixel_at(img, width, height, x, y + 2),
        i5: spec_pixel_at(img, width, height, x + 1, y + 2),
    }
}

/// The down-right section: the identity relabeling.
pub open spec fn spec_down_right(k: Kernel) -> KernelSection {
    KernelSection {
        e: k.e,
        i: k.i,
        h: k.h,
        f: k.f,
        g: k.g,
        c: k.c,
        d: k.d,
        b: k.b,
        f4: k.f4,
        i4: k.i4,
        h5: k.h5,
        i5: k.i5,
    }
}

/// The up-right section: the kernel rotated a quarter turn.
pub open spec fn spec_up_right(k: Kernel) -> KernelSection {
    KernelSection {
        e: k.e,
        i: k.c,
        h: k.f,
        f: k.b,
        g: k.i,
        c: k.a,
        d: k.h,
        b: k.d,
        f4: k.b1,
        i4: k.c1,
        h5: k.f4,
        i5: k.c4,
    }
}

/// The up-left section: the kernel rotated a half turn.
pub open spec fn spec_up_left(k: Kernel) -> KernelSection {
    KernelSection {
        e: k.e,
        i: k.a,
        h: k.b,
        f: k.d,
        g: k.c,
        c: k.g,
        d: k.f,
        b: k.h,
        f4: k.d0,
        i4: k.a0,
        h5: k.b1,
        i5: k.a1,
    }
}

/// The down-left section: the kernel rotated three quarter turns.
pub open spec fn spec_down_left(k: Kernel) -> KernelSection {
    KernelSection {
        e: k.e,
        i: k.g,
        h: k.d,
        f: k.h,
        g: k.a,
        c: k.i,
        d: k.b,
        b: k.f,
        f4: k.h5,
        i4: k.g5,
        h5: k.d0,
        i5: k.g0,
    }
}

impl Kernel {
    /// Samples all 21 neighborhood positions of `(x, y)`, with the
    /// out-of-bounds sentinel rule.
    pub fn new(image: &Vec<u32>, width: u32, height: u32, x: u32, y: u32) -> (k: Kernel)
        requires
            image@.len() == width * height,
            x < width,
            y < height,
        ensures
            k == spec_kernel(image@, width as int, height as int, x as int, y as int),
    {
        let xi: i64 = x as i64;
        let yi: i64 = y as i64;

        Kernel {
            a1: pixel_at(image, width, height, xi - 1, yi - 2),
            b1: pixel_at(image, width, height, xi, yi - 2),
            c1: pixel_at(image, width, height, xi + 1, yi - 2),
            a0: pixel_at(image, width, height, xi - 2, yi - 1),
            a: pixel_at(image, width, height, xi - 1, yi - 1),
            b: pixel_at(image, width, height, xi, yi - 1),
            c: pixel_at(image, width, height, xi + 1, yi - 1),
            c4: pixel_at(image, width, height, xi + 2, yi - 1),
            d0: pixel_at(image, width, height, xi - 2, yi),
            d: pixel_at(image, width, height, xi - 1, yi),
            e: pixel_at(image, width, height, xi, yi),
            f: pixel_at(image, width, height, xi + 1, yi),
            f4: pixel_at(image, width, height, xi + 2, yi),
            g0: pixel_at(image, width, height, xi - 2, yi + 1),
            g: pixel_at(image, width, height, xi - 1, yi + 1),
            h: pixel_at(image, width, height, xi, yi + 1),
            i: pixel_at(image, width, height, xi + 1, yi + 1),
            i4: pixel_at(image, width, height, xi + 2, yi + 1),
            g5: pixel_at(image, width, height, xi - 1, yi + 2),
            h5: pixel_at(image, width, height, xi, yi + 2),
            i5: pixel_at(image, width, height, xi + 1, yi + 2),
        }
    }

    /// The down-right section of this kernel.
    pub fn down_right(&self) -> (s: KernelSection)
        ensures
            s == spec_down_right(*self),
    {
        KernelSection {
            e: self.e,
            i: self.i,
            h: self.h,
            f: self.f,
            g: self.g,
            c: self.c,
            d: self.d,
            b: self.b,
            f4: self.f4,
            i4: self.i4,
            h5: self.h5,
            i5: self.i5,
        }
    }

    /// The up-right section of this kernel.
    pub fn up_right(&self) -> (s: KernelSection)
        ensures
            s == spec_up_right(*self),
    {
        KernelSection {
            e: self.e,
            i: self.c,
            h: self.f,
            f: self.b,
            g: self.i,
            c: self.a,
            d: self.h,
            b: self.d,
            f4: self.b1,
            i4: self.c1,
            h5: self.f4,
            i5: self.c4,
        }
    }

    /// The up-left section of this kernel.
    pub fn up_left(&self) -> (s: KernelSection)
        ensures
            s == spec_up_left(*self),
    {
        KernelSection {
            e: self.e,
            i: self.a,
            h: self.b,
            f: self.d,
            g: self.c,
            c: self.g,
            d: self.f,
            b: self.h,
            f4: self.d0,
            i4: self.a0,
            h5: self.b1,
            i5: self.a1,
        }
    }

    /// The down-left section of this kernel.
    pub fn down_left(&self) -> (s: KernelSection)
        ensures
            s == spec_down_left(*self),
    {
        KernelSection {
            e: self.e,
            i: self.g,
            h: self.d,
            f: self.h,
            g: self.a,
            c: self.i,
            d: self.b,
            b: self.f,
            f4: self.h5,
            i4: self.g5,
            h5: self.d0,
            i5: self.g0,
        }
    }
}

/// What one run of the sampling decision procedure leaves in the three
/// destination slots it may touch, given their prior values.
///
/// If the center pixel exactly equals its down or right neighbor, no edge
/// crosses this quadrant and all three slots keep their prior values.
/// Otherwise two weighted distance sums compare the two diagonal
/// directions; when the edge direction wins and one of the edge patterns
/// matches, the candidate pixel is interpolated into one, two or three
/// slots, at the 1:3, 1:1 and 3:1 ratios.
#[verifier::opaque]
pub open spec fn spec_sample(s: KernelSection, n1: u32, n2: u32, n3: u32) -> (u32, u32, u32) {
    if s.e == s.h || s.e == s.f {
        (n1, n2, n3)
    } else {
        let red_sum: int = spec_diff(s.e, s.c) + spec_diff(s.e, s.g) + spec_diff(s.i, s.h5)
            + spec_diff(s.i, s.f4) + spec_diff(s.h, s.f) * 4;
        let blue_sum: int = spec_diff(s.h, s.d) + spec_diff(s.h, s.i5) + spec_diff(s.f, s.i4)
            + spec_diff(s.f, s.b) + spec_diff(s.e, s.i) * 4;
        let px: u32 = if spec_diff(s.e, s.f) <= spec_diff(s.e, s.h) {
            s.f
        } else {
            s.h
        };
        let edge_cases: bool = !spec_is_equal(s.f, s.b) && !spec_is_equal(s.h, s.d)
            || spec_is_equal(s.e, s.i) && (!spec_is_equal(s.f, s.i4) && !spec_is_equal(s.h, s.i5))
            || spec_is_equal(s.e, s.g) || spec_is_equal(s.e, s.c);
        if red_sum < blue_sum && edge_cases {
            let ke: int = spec_diff(s.f, s.g);
            let ki: int = spec_diff(s.h, s.c);
            let ex2: bool = s.e != s.c && s.b != s.c;
            let ex3: bool = s.e != s.g && s.d != s.g;
            if ke * 2 <= ki && ex3 || ke >= ki * 2 && ex2 {
                let n2l: u32 = if ke * 2 <= ki && ex3 {
                    spec_blend(n2, px, 3, 1)
                } else {
                    n2
                };
                let n3l: u32 = if ke * 2 <= ki && ex3 {
                    spec_blend(n3, px, 1, 3)
                } else {
                    n3
                };
                let n1u: u32 = if ke >= ki * 2 && ex2 {
                    spec_blend(n1, px, 3, 1)
                } else {
                    n1
                };
                let n3u: u32 = if ke >= ki * 2 && ex2 {
                    spec_blend(n3l, px, 1, 3)
                } else {
                    n3l
                };
                (n1u, n2l, n3u)
            } else {
                (n1, n2, spec_blend(n3, px, 1, 1))
            }
        } else if red_sum <= blue_sum {
            (n1, n2, spec_blend(n3, px, 3, 1))
        } else {
            (n1, n2, n3)
        }
    }
}

/// Runs the sampling decision procedure of one section, updating the
/// section's own quadrant `n3` and, for double-pixel interpolations, the
/// two neighboring quadrants `n1` and `n2`.
pub fn sample_x2(s: KernelSection, n1: &mut u32, n2: &mut u32, n3: &mut u32)
    ensures
        (*final(n1), *final(n2), *final(n3)) == spec_sample(s, *old(n1), *old(n2), *old(n3)),
{
    proof {
        reveal(spec_sample);
    }

    // No edge through this quadrant: the predominant edge runs along e-i,
    // and e needs no interpolation.
    let ex: bool = s.e == s.h || s.e == s.f;
    if ex {
        return;
    }

    // Weighted distances along the two diagonal directions. If the sum
    // along the first is smaller, an edge runs in the h-f direction and
    // the center pixel is interpolated.
    let red_sum: u64 = diff(s.e, s.c) + diff(s.e, s.g) + diff(s.i, s.h5) + diff(s.i, s.f4) + diff(
        s.h,
        s.f,
    ) * 4;
    let blue_sum: u64 = diff(s.h, s.d) + diff(s.h, s.i5) + diff(s.f, s.i4) + diff(s.f, s.b) + diff(
        s.e,
        s.i,
    ) * 4;

    let px: u32 = if diff(s.e, s.f) <= diff(s.e, s.h) {
        s.f
    } else {
        s.h
    };

    let edge_cases: bool = !is_equal(s.f, s.b) && !is_equal(s.h, s.d) || is_equal(s.e, s.i) && (
    !is_equal(s.f, s.i4) && !is_equal(s.h, s.i5)) || is_equal(s.e, s.g) || is_equal(s.e, s.c);

    if red_sum < blue_sum && edge_cases {
        let ke: u64 = diff(s.f, s.g);
        let ki: u64 = diff(s.h, s.c);
        let ex2: bool = s.e != s.c && s.b != s.c;
        let ex3: bool = s.e != s.g && s.d != s.g;

        if ke * 2 <= ki && ex3 || ke >= ki * 2 && ex2 {
            if ke * 2 <= ki && ex3 {
                let left_out: (u32, u32) = left2(*n3, *n2, px);
                *n3 = left_out.0;
                *n2 = left_out.1;
            }
            if ke >= ki * 2 && ex2 {
                let up_out: (u32, u32) = up2(*n3, *n1, px);
                *n3 = up_out.0;
                *n1 = up_out.1;
            }
        } else {
            *n3 = dia(*n3, px);
        }
    } else if red_sum <= blue_sum {
        *n3 = blend_64w(*n3, px);
    }
}

/// The four destination quadrant pixels of one source pixel: all start as
/// the center pixel `e`, then the four sections run in a fixed order
/// (down-right, up-right, up-left, down-left), each possibly reworking up
/// to three of the slots. The order is load-bearing: later sections can
/// overwrite what earlier ones left in a shared slot.
///
/// The result is `(e0, e1, e2, e3)` for the quadrants
/// `(left-top, right-top, left-bottom, right-bottom)`.
pub open spec fn spec_quads(k: Kernel) -> (u32, u32, u32, u32) {
    let e: u32 = k.e;
    let r_dr: (u32, u32, u32) = spec_sample(spec_down_right(k), e, e, e);
    let r_ur: (u32, u32, u32) = spec_sample(spec_up_right(k), e, r_dr.2, r_dr.0);
    let r_ul: (u32, u32, u32) = spec_sample(spec_up_left(k), r_dr.1, r_ur.2, r_ur.0);
    let r_dl: (u32, u32, u32) = spec_sample(spec_down_left(k), r_ur.1, r_ul.2, r_ul.0);
    (r_dl.1, r_ul.1, r_dl.2, r_dl.0)
}

/// The destination pixel at column `gx`, row `gy` of the doubled image:
/// the quadrant `(gx % 2, gy % 2)` of source pixel `(gx / 2, gy / 2)`.
pub open spec fn spec_dst_pixel(img: Seq<u32>, width: int, height: int, gx: int, gy: int) -> u32 {
    let q = spec_quads(spec_kernel(img, width, height, gx / 2, gy / 2));
    if gy % 2 == 0 {
        if gx % 2 == 0 {
            q.0
        } else {
            q.1
        }
    } else {
        if gx % 2 == 0 {
            q.2
        } else {
            q.3
        }
    }
}

/// The doubled image as a whole: row-major, row stride `2 * width`,
/// length `4 * width * height`.
pub open spec fn spec_scale_2x(img: Seq<u32>, width: int, height: int) -> Seq<u32> {
    Seq::new(
        (4 * width * height) as nat,
        |idx: int| spec_dst_pixel(img, width, height, idx % (2 * width), idx / (2 * width)),
    )
}

/// A destination slot that the scaling pass has already filled once the
/// pass has completed the source rows before `y` and, in row `y`, the
/// source columns before `x`.
pub open spec fn spec_slot_done(i: int, width: int, x: int, y: int) -> bool {
    let gx: int = i % (2 * width);
    let gy: int = i / (2 * width);
    gy / 2 < y || (gy / 2 == y && gx / 2 < x)
}

/// Flat-index arithmetic for the destination slot of quadrant `(dx, dy)`
/// of source pixel `(x, y)`.
proof fn lemma_dst_index(width: int, height: int, x: int, y: int, dx: int, dy: int)
    requires
        0 <= x < width,
        0 <= y < height,
        0 <= dx < 2,
        0 <= dy < 2,
    ensures
        ({
            let idx: int = (2 * y + dy) * (2 * width) + (2 * x + dx);
            &&& 0 <= idx < 4 * width * height
            &&& idx % (2 * width) == 2 * x + dx
            &&& idx / (2 * width) == 2 * y + dy
            &&& (2 * x + dx) / 2 == x
            &&& (2 * x + dx) % 2 == dx
            &&& (2 * y + dy) / 2 == y
            &&& (2 * y + dy) % 2 == dy
        }),
{
    broadcast use vstd::arithmetic::mul::lemma_mul_is_commutative;

    let idx: int = (2 * y + dy) * (2 * width) + (2 * x + dx);
    vstd::arithmetic::div_mod::lemma_fundamental_div_mod_converse(
        idx,
        2 * width,
        2 * y + dy,
        2 * x + dx,
    );
    vstd::arithmetic::div_mod::lemma_fundamental_div_mod_converse(2 * x + dx, 2, x, dx);
    vstd::arithmetic::div_mod::lemma_fundamental_div_mod_converse(2 * y + dy, 2, y, dy);
    assert(0 <= idx < 4 * width * height) by (nonlinear_arith)
        requires
            0 <= x < width,
            0 <= y < height,
            0 <= dx < 2,
            0 <= dy < 2,
            idx == (2 * y + dy) * (2 * width) + (2 * x + dx),
    ;
}

/// Decomposition of a flat destination index into its column, row, source
/// coordinate and quadrant.
proof fn lemma_slot_coords(i: int, width: int, height: int)
    requires
        0 <= width,
        0 <= height,
        0 <= i < 4 * width * height,
    ensures
        ({
            let gx: int = i % (2 * width);
            let gy: int = i / (2 * width);
            &&& 0 < width && 0 < height
            &&& 0 <= gx < 2 * width
            &&& 0 <= gy < 2 * height
            &&& i == gy * (2 * width) + gx
            &&& gx == 2 * (gx / 2) + gx % 2
            &&& gy == 2 * (gy / 2) + gy % 2
            &&& 0 <= gx % 2 < 2
            &&& 0 <= gy % 2 < 2
            &&& 0 <= gx / 2 < width
            &&& 0 <= gy / 2 < height
        }),
{
    broadcast use vstd::arithmetic::mul::lemma_mul_is_commutative;

    assert(0 < width && 0 < height) by (nonlinear_arith)
        requires
            0 <= width,
            0 <= height,
            0 <= i < 4 * width * height,
    ;
    let w2: int = 2 * width;
    vstd::arithmetic::div_mod::lemma_fundamental_div_mod(i, w2);
    vstd::arithmetic::div_mod::lemma_mod_pos_bound(i, w2);
    vstd::arithmetic::div_mod::lemma_div_pos_is_pos(i, w2);
    let gx: int = i % w2;
    let gy: int = i / w2;
    assert(gy < 2 * height) by (nonlinear_arith)
        requires
            0 < width,
            0 < height,
            i < 4 * width * height,
            i == w2 * gy + gx,
            w2 == 2 * width,
            0 <= gx < w2,
            0 <= gy,
    ;
    vstd::arithmetic::div_mod::lemma_fundamental_div_mod(gx, 2);
    vstd::arithmetic::div_mod::lemma_mod_pos_bound(gx, 2);
    vstd::arithmetic::div_mod::lemma_div_pos_is_pos(gx, 2);
    vstd::arithmetic::div_mod::lemma_fundamental_div_mod(gy, 2);
    vstd::arithmetic::div_mod::lemma_mod_pos_bound(gy, 2);
    vstd::arithmetic::div_mod::lemma_div_pos_is_pos(gy, 2);
}

/// Computes the four destination quadrants of one source pixel: all start
/// as the center pixel, then the four sections run in their fixed order.
fn quads_x2(kernel: Kernel) -> (q: (u32, u32, u32, u32))
    ensures
        q == spec_quads(kernel),
{
    // | e0 | e1 |
    // | e2 | e3 |
    let mut e0: u32 = kernel.e;
    let mut e1: u32 = kernel.e;
    let mut e2: u32 = kernel.e;
    let mut e3: u32 = kernel.e;

    sample_x2(kernel.down_right(), &mut e1, &mut e2, &mut e3);
    sample_x2(kernel.up_right(), &mut e0, &mut e3, &mut e1);
    sample_x2(kernel.up_left(), &mut e2, &mut e1, &mut e0);
    sample_x2(kernel.down_left(), &mut e3, &mut e0, &mut e2);

    (e0, e1, e2, e3)
}

/// Applies the 2x xBR filter: reads every source pixel's neighborhood and
/// writes its four destination quadrants. Every slot of `dst_buf` is
/// overwritten; afterwards it holds exactly the doubled image.
#[verifier::rlimit(100)]
pub fn apply_x2(dst_buf: &mut Vec<u32>, image: &Vec<u32>, width: u32, height: u32)
    requires
        image@.len() == width * height,
        old(dst_buf)@.len() == 4 * (width as int) * (height as int),
    ensures
        final(dst_buf)@ == spec_scale_2x(image@, width as int, height as int),
{
    let ghost gw: int = width as int;
    let ghost gh: int = height as int;
    let ghost target: Seq<u32> = spec_scale_2x(image@, gw, gh);

    proof {
        assert forall|i: int| 0 <= i < dst_buf@.len() && spec_slot_done(i, gw, 0, 0)
            implies #[trigger] dst_buf@[i] == target[i] by {
            lemma_slot_coords(i, gw, gh);
        }
    }

    let mut y: u32 = 0;
    while y < height
        invariant
            image@.len() == width * height,
            dst_buf@.len() == 4 * (width as int) * (height as int),
            y <= height,
            gw == width as int,
            gh == height as int,
            target == spec_scale_2x(image@, gw, gh),
            forall|i: int|
                0 <= i < dst_buf@.len() && spec_slot_done(i, gw, 0, y as int)
                    ==> #[trigger] dst_buf@[i] == target[i],
        decreases height - y,
    {
        let mut x: u32 = 0;
        while x < width
            invariant
                image@.len() == width * height,
                dst_buf@.len() == 4 * (width as int) * (height as int),
                y < height,
                x <= width,
                gw == width as int,
                gh == height as int,
                target == spec_scale_2x(image@, gw, gh),
                forall|i: int|
                    0 <= i < dst_buf@.len() && spec_slot_done(i, gw, x as int, y as int)
                        ==> #[trigger] dst_buf@[i] == target[i],
            decreases width - x,
        {
            let kernel: Kernel = Kernel::new(image, width, height, x, y);
            let quads: (u32, u32, u32, u32) = quads_x2(kernel);
            let e0: u32 = quads.0;
            let e1: u32 = quads.1;
            let e2: u32 = quads.2;
            let e3: u32 = quads.3;

            proof {
                lemma_dst_index(gw, gh, x as int, y as int, 0, 0);
                lemma_dst_index(gw, gh, x as int, y as int, 1, 0);
                lemma_dst_index(gw, gh, x as int, y as int, 0, 1);
                lemma_dst_index(gw, gh, x as int, y as int, 1, 1);
            }

            let dlen: usize = dst_buf.len();
            let dst_w: u64 = 2 * (width as u64);
            let xb: u64 = 2 * (x as u64);
            let yb: u64 = 2 * (y as u64);

            let i00: usize = (yb * dst_w + xb) as usize;
            let i01: usize = (yb * dst_w + xb + 1) as usize;
            let i10: usize = ((yb + 1) * dst_w + xb) as usize;
            let i11: usize = ((yb + 1) * dst_w + xb + 1) as usize;

            let ghost pre: Seq<u32> = dst_buf@;
            dst_buf.set(i00, e0);
            dst_buf.set(i01, e1);
            dst_buf.set(i10, e2);
            dst_buf.set(i11, e3);

            proof {
                assert(dst_buf@[i00 as int] == target[i00 as int]);
                assert(dst_buf@[i01 as int] == target[i01 as int]);
                assert(dst_buf@[i10 as int] == target[i10 as int]);
                assert(dst_buf@[i11 as int] == target[i11 as int]);

                assert forall|i: int|
                    0 <= i < dst_buf@.len() && spec_slot_done(i, gw, x as int + 1, y as int)
                        implies #[trigger] dst_buf@[i] == target[i] by {
                    lemma_slot_coords(i, gw, gh);
                    let gx: int = i % (2 * gw);
                    let gy: int = i / (2 * gw);
                    if gy / 2 == y as int && gx / 2 == x as int {
                        assert(i == i00 as int || i == i01 as int || i == i10 as int
                            || i == i11 as int);
                    } else {
                        assert(spec_slot_done(i, gw, x as int, y as int));
                        assert(dst_buf@[i] == pre[i]);
                    }
                }
            }
            x = x + 1;
        }

        proof {
            assert forall|i: int|
                0 <= i < dst_buf@.len() && spec_slot_done(i, gw, 0, y as int + 1)
                    implies #[trigger] dst_buf@[i] == target[i] by {
                lemma_slot_coords(i, gw, gh);
                assert(spec_slot_done(i, gw, width as int, y as int));
            }
        }
        y = y + 1;
    }

    proof {
        assert forall|i: int| 0 <= i < dst_buf@.len() implies #[trigger] dst_buf@[i]
            == target[i] by {
            lemma_slot_coords(i, gw, gh);
            assert(spec_slot_done(i, gw, 0, height as int));
        }
        assert(dst_buf@ =~= target);
    }
}

/// Allocates a zeroed destination buffer for a 2x pass over a
/// `width` by `height` source, and returns the doubled dimensions.
pub fn get_buffer_for_size(width: u32, height: u32) -> (r: (Vec<u32>, u32, u32))
    requires
        2 * width <= u32::MAX,
        2 * height <= u32::MAX,
        4 * (width as int) * (height as int) <= usize::MAX,
    ensures
        r.0@.len() == 4 * (width as int) * (height as int),
        r.1 == 2 * width,
        r.2 == 2 * height,
{
    proof {
        assert((width as int) * (height as int) < 0x1_0000_0000_0000_0000
            && 4 * ((width as int) * (height as int)) == 4 * (width as int) * (height as int)
            && 0 <= (width as int) * (height as int)) by (nonlinear_arith)
            requires
                width < 0x1_0000_0000,
                height < 0x1_0000_0000,
        ;
    }
    let wh: u64 = (width as u64) * (height as u64);
    let total: u64 = 4 * wh;
    let buf: Vec<u32> = vec![0u32; total as usize];
    (buf, 2 * width, 2 * height)
}

/// Scales the image to twice its width and twice its height with the xBR
/// filter. The result is a deterministic function of the input alone; its
/// length is exactly `4 * width * height`, so a source with zero width or
/// height yields an empty result.
pub fn scale_2x(image: &Vec<u32>, width: u32, height: u32) -> (scaled: Vec<u32>)
    requires
        image@.len() == width * height,
        4 * (width as int) * (height as int) <= usize::MAX,
    ensures
        scaled@ == spec_scale_2x(image@, width as int, height as int),
        scaled@.len() == 4 * (width as int) * (height as int),
        width == 0 || height == 0 ==> scaled@.len() == 0,
{
    proof {
        assert((width as int) * (height as int) < 0x1_0000_0000_0000_0000
            && 4 * ((width as int) * (height as int)) == 4 * (width as int) * (height as int)
            && 0 <= (width as int) * (height as int)) by (nonlinear_arith)
            requires
                width < 0x1_0000_0000,
                height < 0x1_0000_0000,
        ;
        if width == 0 || height == 0 {
            assert(4 * (width as int) * (height as int) == 0) by (nonlinear_arith)
                requires
                    width == 0 || height == 0,
            ;
        }
    }
    let wh: u64 = (width as u64) * (height as u64);
    let total: u64 = 4 * wh;
    let mut buf: Vec<u32> = vec![0u32; total as usize];
    apply_x2(&mut buf, image, width, height);
    buf
}

/// Checked entry point: verifies that the buffer length matches the
/// declared dimensions (and that the doubled image fits in memory) before
/// any kernel work begins, and refuses the input otherwise.
pub fn try_scale_2x(image: &Vec<u32>, width: u32, height: u32) -> (r: Option<Vec<u32>>)
    ensures
        match r {
            Some(scaled) => image@.len() == width * height && 4 * (width as int) * (height as int)
                <= usize::MAX && scaled@ == spec_scale_2x(image@, width as int, height as int),
            None => image@.len() != width * height || 4 * (width as int) * (height as int)
                > usize::MAX,
        },
{
    proof {
        assert((width as int) * (height as int) < 0x1_0000_0000_0000_0000
            && 4 * ((width as int) * (height as int)) == 4 * (width as int) * (height as int)
            && 0 <= (width as int) * (height as int)) by (nonlinear_arith)
            requires
                width < 0x1_0000_0000,
                height < 0x1_0000_0000,
        ;
        vstd::arithmetic::div_mod::lemma_fundamental_div_mod(usize::MAX as int, 4);
        vstd::arithmetic::div_mod::lemma_mod_pos_bound(usize::MAX as int, 4);
    }
    let wh: u64 = (width as u64) * (height as u64);
    let len_ok: bool = (image.len() as u64) == wh;
    let size_ok: bool = wh <= (usize::MAX as u64) / 4;
    if len_ok && size_ok {
        Some(scale_2x(image, width, height))
    } else {
        None
    }
}

/// Law: when the center pixel exactly equals its down or right neighbor
/// in a section, the sampling procedure leaves all three slots unchanged.
pub proof fn lemma_sample_identity(s: KernelSection, n1: u32, n2: u32, n3: u32)
    requires
        s.e == s.h || s.e == s.f,
    ensures
        spec_sample(s, n1, n2, n3) == (n1, n2, n3),
{
    reveal(spec_sample);
}

/// A source coordinate in one of the four corners of the image.
pub open spec fn spec_is_corner(x: int, y: int, width: int, height: int) -> bool {
    (x == 0 || x == width - 1) && (y == 0 || y == height - 1)
}

/// On an image whose pixels all equal `p`, a neighborhood sample is `p`
/// in bounds and the sentinel `0` outside.
proof fn lemma_uniform_pixel_at(img: Seq<u32>, width: int, height: int, p: u32, x: int, y: int)
    requires
        img.len() == width * height,
        forall|j: int| 0 <= j < img.len() ==> img[j] == p,
    ensures
        spec_pixel_at(img, width, height, x, y) == if 0 <= x < width && 0 <= y < height {
            p
        } else {
            0u32
        },
{
    if 0 <= x < width && 0 <= y < height {
        assert(0 <= y * width + x < width * height) by (nonlinear_arith)
            requires
                0 <= x < width,
                0 <= y < height,
        ;
    }
}

/// Law: a uniform image produces no false edges. If every source pixel
/// equals `p`, then all four quadrant outputs of every source pixel equal
/// `p` — except at the four image corners, where two sentinel reads meet
/// and pull the corner's own quadrants toward transparent black; a
/// uniform sentinel-colored image (`p == 0`) is a fixed point everywhere.
pub proof fn lemma_uniform_fixed_point(
    img: Seq<u32>,
    width: int,
    height: int,
    p: u32,
    x: int,
    y: int,
)
    requires
        img.len() == width * height,
        forall|j: int| 0 <= j < img.len() ==> img[j] == p,
        0 <= x < width,
        0 <= y < height,
        p == 0 || !spec_is_corner(x, y, width, height),
    ensures
        spec_quads(spec_kernel(img, width, height, x, y)) == (p, p, p, p),
{
    let k: Kernel = spec_kernel(img, width, height, x, y);
    lemma_uniform_pixel_at(img, width, height, p, x, y);
    lemma_uniform_pixel_at(img, width, height, p, x, y - 1);
    lemma_uniform_pixel_at(img, width, height, p, x, y + 1);
    lemma_uniform_pixel_at(img, width, height, p, x - 1, y);
    lemma_uniform_pixel_at(img, width, height, p, x + 1, y);

    // In every section the canonical h and f slots come from the four
    // direct neighbors b, d, f, h of the kernel; away from the corners at
    // least one of each section's pair is in bounds and equals e.
    assert(k.e == p);
    if p == 0 {
        assert(k.h == 0 && k.f == 0 && k.b == 0 && k.d == 0);
    } else {
        assert(y < height - 1 ==> k.h == p);
        assert(x < width - 1 ==> k.f == p);
        assert(y > 0 ==> k.b == p);
        assert(x > 0 ==> k.d == p);
    }
    lemma_sample_identity(spec_down_right(k), p, p, p);
    lemma_sample_identity(spec_up_right(k), p, p, p);
    lemma_sample_identity(spec_up_left(k), p, p, p);
    lemma_sample_identity(spec_down_left(k), p, p, p);
}

/// Law: the uniform fixed point, stated on the scaled image itself. Every
/// output pixel whose source pixel is not an image corner equals `p`, and
/// for `p == 0` every output pixel without exception does.
pub proof fn lemma_uniform_fixed_point_scaled(
    img: Seq<u32>,
    width: int,
    height: int,
    p: u32,
    i: int,
)
    requires
        img.len() == width * height,
        forall|j: int| 0 <= j < img.len() ==> img[j] == p,
        0 <= width,
        0 <= height,
        0 <= i < 4 * width * height,
        p == 0 || !spec_is_corner(
            (i % (2 * width)) / 2,
            (i / (2 * width)) / 2,
            width,
            height,
        ),
    ensures
        spec_scale_2x(img, width, height)[i] == p,
{
    lemma_slot_coords(i, width, height);
    let gx: int = i % (2 * width);
    let gy: int = i / (2 * width);
    lemma_uniform_fixed_point(img, width, height, p, gx / 2, gy / 2);
}

} // verus!
