//! The fitness evaluator: a perceptual distance between two canvases.
//!
//! The distance is an exact rational: a luma-weighted sum of absolute
//! channel differences over the denominator that a fully black versus
//! fully white pair of canvases would reach. Zero means pixel-identical;
//! the whole unit means maximal difference on every pixel.

use vstd::prelude::*;

use crate::canvas::{rgb_channel_at, Canvas};

verus! {

/// The luma weight of channel `c`, in ten-thousandths; the three weights
/// sum to one whole.
pub open spec fn channel_weight_spec(c: int) -> int {
    if c == 0 {
        2126
    } else if c == 1 {
        7152
    } else {
        722
    }
}

/// Absolute difference of two channel values.
pub open spec fn abs_diff_spec(a: u8, b: u8) -> int {
    if a >= b {
        a - b
    } else {
        b - a
    }
}

/// The luma-weighted difference of pixel `i` of the two byte stores.
pub open spec fn pixel_diff_spec(a: Seq<u8>, b: Seq<u8>, i: int) -> int {
    2126 * abs_diff_spec(rgb_channel_at(a, i, 0), rgb_channel_at(b, i, 0)) + 7152 * abs_diff_spec(
        rgb_channel_at(a, i, 1),
        rgb_channel_at(b, i, 1),
    ) + 722 * abs_diff_spec(rgb_channel_at(a, i, 2), rgb_channel_at(b, i, 2))
}

/// The summed weighted difference of the first `n` pixels.
pub open spec fn diff_sum_spec(a: Seq<u8>, b: Seq<u8>, n: int) -> int
    decreases n,
{
    if n <= 0 {
        0
    } else {
        diff_sum_spec(a, b, n - 1) + pixel_diff_spec(a, b, n - 1)
    }
}

/// The numerator of the distance between two equally sized canvases.
pub open spec fn diff_num_spec(a: Canvas, b: Canvas) -> int {
    diff_sum_spec(a.data@, b.data@, a.pixel_count())
}

/// The denominator of the distance: the numerator a maximally different
/// pair of canvases of this size would reach.
pub open spec fn diff_den_spec(a: Canvas) -> int {
    2_550_000 * a.pixel_count()
}

/// An exact perceptual distance: the fraction `num / den`, with `den`
/// fixed by the canvas size.
#[derive(Clone, Copy, Debug, PartialEq, Eq, Structural)]
pub struct DiffScore {
    pub num: u64,
    pub den: u64,
}

/// Each pixel contributes between zero and one whole denominator share.
pub proof fn lemma_pixel_diff_bounds(a: Seq<u8>, b: Seq<u8>, i: int)
    ensures
        0 <= pixel_diff_spec(a, b, i) <= 2_550_000,
{
}

/// A canvas is at distance zero from itself.
pub proof fn lemma_diff_self(a: Canvas)
    ensures
        diff_num_spec(a, a) == 0,
{
    lemma_diff_sum_self(a.data@, a.pixel_count());
}

proof fn lemma_diff_sum_self(d: Seq<u8>, n: int)
    ensures
        diff_sum_spec(d, d, n) == 0,
    decreases n,
{
    if n > 0 {
        lemma_diff_sum_self(d, n - 1);
    }
}

/// The distance is symmetric in its two canvases.
pub proof fn lemma_diff_symmetric(a: Canvas, b: Canvas)
    requires
        a.width == b.width,
        a.height == b.height,
    ensures
        diff_num_spec(a, b) == diff_num_spec(b, a),
{
    lemma_diff_sum_symmetric(a.data@, b.data@, a.pixel_count());
}

proof fn lemma_diff_sum_symmetric(a: Seq<u8>, b: Seq<u8>, n: int)
    ensures
        diff_sum_spec(a, b, n) == diff_sum_spec(b, a, n),
    decreases n,
{
    if n > 0 {
        lemma_diff_sum_symmetric(a, b, n - 1);
    }
}

/// A fully white canvas and a fully black one of the same size are at the
/// maximal distance: the numerator equals the denominator.
pub proof fn lemma_diff_extremes(a: Canvas, b: Canvas)
    requires
        a.well_formed(),
        b.well_formed(),
        a.width == b.width,
        a.height == b.height,
        forall|i: int| 0 <= i < a.data@.len() ==> a.data@[i] == 255,
        forall|i: int| 0 <= i < b.data@.len() ==> b.data@[i] == 0,
    ensures
        diff_num_spec(a, b) == diff_den_spec(a),
{
    lemma_diff_sum_extremes(a.data@, b.data@, a.pixel_count());
}

proof fn lemma_diff_sum_extremes(a: Seq<u8>, b: Seq<u8>, n: int)
    requires
        n >= 0,
        3 * n <= a.len(),
        3 * n <= b.len(),
        forall|i: int| 0 <= i < a.len() ==> a[i] == 255,
        forall|i: int| 0 <= i < b.len() ==> b[i] == 0,
    ensures
        diff_sum_spec(a, b, n) == 2_550_000 * n,
    decreases n,
{
    if n > 0 {
        lemma_diff_sum_extremes(a, b, n - 1);
        assert(pixel_diff_spec(a, b, n - 1) == 2_550_000);
        assert(2_550_000 * n == 2_550_000 * (n - 1) + 2_550_000) by (nonlinear_arith);
    }
}

/// The exact distance between two equally sized canvases.
pub fn diff(a: &Canvas, b: &Canvas) -> (r: DiffScore)
    requires
        a.well_formed(),
        b.well_formed(),
        a.width == b.width,
        a.height == b.height,
    ensures
        r.num == diff_num_spec(*a, *b),
        r.den == diff_den_spec(*a),
        r.num <= r.den,
{
    proof {
        assert(0 <= (a.width as int) * (a.height as int) <= (crate::units::MAX_DIMENSION as int)
            * (crate::units::MAX_DIMENSION as int)) by (nonlinear_arith)
            requires
                0 <= a.width <= crate::units::MAX_DIMENSION,
                0 <= a.height <= crate::units::MAX_DIMENSION,
        ;
    }
    let pixels: usize = (a.width as usize) * (a.height as usize);
    let mut num: u64 = 0;
    let mut i: usize = 0;
    while i < pixels
        invariant
            a.well_formed(),
            b.well_formed(),
            a.width == b.width,
            a.height == b.height,
            pixels == a.pixel_count(),
            pixels <= (crate::units::MAX_DIMENSION as int) * (crate::units::MAX_DIMENSION as int),
            0 <= i <= pixels,
            num == diff_sum_spec(a.data@, b.data@, i as int),
            num <= 2_550_000 * (i as int),
        decreases pixels - i,
    {
        proof {
            assert(3 * (i as int) + 2 < 3 * a.pixel_count()) by (nonlinear_arith)
                requires
                    0 <= i < a.pixel_count(),
            ;
            lemma_pixel_diff_bounds(a.data@, b.data@, i as int);
            assert(2_550_000 * ((i as int) + 1) == 2_550_000 * (i as int) + 2_550_000)
                by (nonlinear_arith);
            assert(2_550_000 * ((i as int) + 1) <= 2_550_000 * ((crate::units::MAX_DIMENSION as int)
                * (crate::units::MAX_DIMENSION as int))) by (nonlinear_arith)
                requires
                    i + 1 <= (crate::units::MAX_DIMENSION as int) * (
                    crate::units::MAX_DIMENSION as int),
            ;
        }
        let pa0 = a.data[3 * i];
        let pa1 = a.data[3 * i + 1];
        let pa2 = a.data[3 * i + 2];
        let pb0 = b.data[3 * i];
        let pb1 = b.data[3 * i + 1];
        let pb2 = b.data[3 * i + 2];
        let d0: u64 = if pa0 >= pb0 {
            (pa0 - pb0) as u64
        } else {
            (pb0 - pa0) as u64
        };
        let d1: u64 = if pa1 >= pb1 {
            (pa1 - pb1) as u64
        } else {
            (pb1 - pa1) as u64
        };
        let d2: u64 = if pa2 >= pb2 {
            (pa2 - pb2) as u64
        } else {
            (pb2 - pa2) as u64
        };
        num = num + 2126 * d0 + 7152 * d1 + 722 * d2;
        i = i + 1;
    }
    let den: u64 = 2_550_000u64 * (pixels as u64);
    proof {
        assert(2_550_000 * (pixels as int) <= 2_550_000 * ((crate::units::MAX_DIMENSION as int) * (
        crate::units::MAX_DIMENSION as int))) by (nonlinear_arith)
            requires
                pixels as int <= (crate::units::MAX_DIMENSION as int) * (
                crate::units::MAX_DIMENSION as int),
        ;
    }
    DiffScore { num, den }
}

impl DiffScore {
    /// The distance rounded to ten-thousandths of the whole unit.
    pub fn permyriad(&self) -> (r: u64)
        requires
            0 < self.den <= 1_000_000_000_000_000,
            self.num <= self.den,
        ensures
            r == ((self.num as int) * 10000 + (self.den as int) / 2) / (self.den as int),
            r <= 10000,
    {
        proof {
            assert((self.num as int) * 10000 <= (self.den as int) * 10000 && (self.den as int)
                * 10000 + (self.den as int) / 2 <= 0xffff_ffff_ffff_ffff) by (nonlinear_arith)
                requires
                    self.num <= self.den,
                    0 < self.den <= 1_000_000_000_000_000,
            ;
            assert(((self.num as int) * 10000 + (self.den as int) / 2) / (self.den as int)
                <= 10000) by (nonlinear_arith)
                requires
                    0 < self.den,
                    (self.num as int) * 10000 <= (self.den as int) * 10000,
            ;
        }
        (self.num * 10000 + self.den / 2) / self.den
    }
}

} // verus!
