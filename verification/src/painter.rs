//! The painter capability: candidate generators for the search engine.
//!
//! A painter turns one (seed, iteration) pair into a concrete paint
//! instruction and renders it onto a copy of a canvas. Each variant's
//! result is a pure function of its options, the canvas size, the iteration
//! counter and the seed map, which is what makes whole runs reproducible.

use vstd::prelude::*;

use crate::canvas::Canvas;
use crate::color::BlendingMode;
use crate::error::CandidateError;
use crate::paint::InstrModel;
use crate::random::{
    lemma_total_weight_nonneg, lemma_total_weight_skip_step, ranges_valid, size_ranges_valid,
    total_weight_spec, uniform_state_value, PIXEL_LIMIT, WEIGHT_LIMIT,
};
use crate::rng::Rng;
use crate::units::{round_millionths_spec, SizeUnit, UnitMargins, WeightedValue, MAX_DIMENSION,
    UNIT};

pub mod circle;
pub mod rect;
pub mod stroke;

verus! {

/// Largest pixel magnitude a resolved margin side may reach.
pub const MARGIN_PIXEL_LIMIT: i64 = 20_000_000_000;

/// A painter: a candidate generator producing one speculative canvas
/// mutation per call. The result is pinned to a pure function of the
/// inputs, so that a whole search run is reproducible from its seed.
pub trait Painter {
    /// Whether the painter's options are well formed for a canvas of the
    /// given size.
    spec fn valid_spec(&self, width: u32, height: u32) -> bool;

    /// The instruction (or failure) this painter produces for the given
    /// canvas size, iteration and seed map.
    spec fn paint_model_spec(&self, width: u32, height: u32, iteration: u32, seed_map: Canvas)
        -> Result<InstrModel, CandidateError>;

    /// Check the options against a canvas size.
    fn is_valid(&self, width: u32, height: u32) -> (r: bool)
        requires
            0 < width <= MAX_DIMENSION,
            0 < height <= MAX_DIMENSION,
        ensures
            r == self.valid_spec(width, height),
    ;

    /// Paint one candidate: a copy of `canvas` with one new primitive on
    /// it, or the reason this candidate is impossible. The result is fully
    /// determined by the painter, the canvas, the iteration and the seed
    /// map.
    fn paint(&self, canvas: &Canvas, iteration: u32, seed_map: &Canvas) -> (r: Result<
        Canvas,
        CandidateError,
    >)
        requires
            canvas.well_formed(),
            seed_map.well_formed(),
            canvas.width == seed_map.width,
            canvas.height == seed_map.height,
            0 < canvas.width,
            0 < canvas.height,
            self.valid_spec(canvas.width, canvas.height),
        ensures
            ({
                let m = self.paint_model_spec(canvas.width, canvas.height, iteration, *seed_map);
                match (r, m) {
                    (Result::Ok(painted), Result::Ok(im)) => painted.well_formed()
                        && painted.width == canvas.width && painted.height == canvas.height
                        && painted.model() == crate::paint::composite_model_spec(
                        canvas.model(),
                        im,
                    ),
                    (Result::Err(e1), Result::Err(e2)) => e1 == e2,
                    _ => false,
                }
            }),
    ;
}

/// The margins resolve against the canvas to pixel counts the position
/// arithmetic accepts.
pub open spec fn margins_resolve_ok(m: UnitMargins, width: u32, height: u32) -> bool {
    m.in_bounds() && -MARGIN_PIXEL_LIMIT <= m.top.to_pixels_spec(height) <= MARGIN_PIXEL_LIMIT
        && -MARGIN_PIXEL_LIMIT <= m.bottom.to_pixels_spec(height) <= MARGIN_PIXEL_LIMIT
        && -MARGIN_PIXEL_LIMIT <= m.left.to_pixels_spec(width) <= MARGIN_PIXEL_LIMIT
        && -MARGIN_PIXEL_LIMIT <= m.right.to_pixels_spec(width) <= MARGIN_PIXEL_LIMIT
}

fn unit_in_bounds(u: &SizeUnit) -> (r: bool)
    ensures
        r == u.in_bounds(),
{
    match u {
        SizeUnit::Fraction(f) => -crate::units::FRACTION_LIMIT <= *f && *f
            <= crate::units::FRACTION_LIMIT,
        SizeUnit::Pixels(p) => -crate::units::FRACTION_LIMIT <= *p && *p
            <= crate::units::FRACTION_LIMIT,
    }
}

/// Check the margins against the canvas size.
pub fn check_margins(m: &UnitMargins, width: u32, height: u32) -> (r: bool)
    requires
        width <= MAX_DIMENSION,
        height <= MAX_DIMENSION,
    ensures
        r == margins_resolve_ok(*m, width, height),
{
    if !(unit_in_bounds(&m.top) && unit_in_bounds(&m.right) && unit_in_bounds(&m.bottom)
        && unit_in_bounds(&m.left)) {
        return false;
    }
    let top = m.top.to_pixels(height);
    let bottom = m.bottom.to_pixels(height);
    let left = m.left.to_pixels(width);
    let right = m.right.to_pixels(width);
    -MARGIN_PIXEL_LIMIT <= top && top <= MARGIN_PIXEL_LIMIT && -MARGIN_PIXEL_LIMIT <= bottom
        && bottom <= MARGIN_PIXEL_LIMIT && -MARGIN_PIXEL_LIMIT <= left && left
        <= MARGIN_PIXEL_LIMIT && -MARGIN_PIXEL_LIMIT <= right && right <= MARGIN_PIXEL_LIMIT
}

/// The running total of the first `i` weights.
pub open spec fn prefix_weight<T>(s: Seq<WeightedValue<T>>, i: int) -> int {
    total_weight_spec(s) - total_weight_spec(s.skip(i))
}

/// Sum the weights, reporting whether they stay under the accepted limit.
fn weights_bounded<T>(entries: &Vec<WeightedValue<T>>) -> (r: bool)
    ensures
        r == (total_weight_spec(entries@) <= WEIGHT_LIMIT),
{
    proof {
        lemma_total_weight_nonneg(entries@);
        assert(entries@.skip(0) =~= entries@);
    }
    let n = entries.len();
    let mut acc: u128 = 0;
    let mut i: usize = 0;
    while i < n
        invariant
            n == entries@.len(),
            0 <= i <= n,
            acc == prefix_weight(entries@, i as int),
            acc <= WEIGHT_LIMIT,
        decreases n - i,
    {
        proof {
            lemma_total_weight_skip_step(entries@, i as int);
            lemma_total_weight_nonneg(entries@.skip(i as int + 1));
            lemma_total_weight_nonneg(entries@.skip(i as int));
        }
        acc = acc + (entries[i].weight as u128);
        if acc > (WEIGHT_LIMIT as u128) {
            proof {
                lemma_total_weight_nonneg(entries@.skip(i as int + 1));
            }
            return false;
        }
        i = i + 1;
    }
    proof {
        assert(entries@.skip(n as int).len() == 0);
    }
    true
}

/// A weighted list of blending modes the samplers accept.
pub open spec fn modes_valid(s: Seq<WeightedValue<BlendingMode>>) -> bool {
    s.len() > 0 && 0 <= total_weight_spec(s) <= WEIGHT_LIMIT
}

/// Check a weighted list of blending modes.
pub fn check_modes(entries: &Vec<WeightedValue<BlendingMode>>) -> (r: bool)
    ensures
        r == modes_valid(entries@),
{
    proof {
        lemma_total_weight_nonneg(entries@);
    }
    entries.len() > 0 && weights_bounded(entries)
}

/// Check a weighted list of plain ranges.
pub fn check_ranges(entries: &Vec<WeightedValue<(i64, i64)>>) -> (r: bool)
    ensures
        r == ranges_valid(entries@),
{
    proof {
        lemma_total_weight_nonneg(entries@);
    }
    if entries.len() == 0 || !weights_bounded(entries) {
        return false;
    }
    let n = entries.len();
    let mut i: usize = 0;
    while i < n
        invariant
            n == entries@.len(),
            0 <= i <= n,
            forall|j: int|
                0 <= j < i ==> 0 <= (#[trigger] entries@[j]).value.0 <= entries@[j].value.1
                    <= UNIT,
        decreases n - i,
    {
        let v = entries[i].value;
        if !(0 <= v.0 && v.0 <= v.1 && v.1 <= UNIT) {
            return false;
        }
        i = i + 1;
    }
    true
}

/// Check a weighted list of size ranges against a reference dimension.
pub fn check_size_ranges(entries: &Vec<WeightedValue<(SizeUnit, SizeUnit)>>, pixel_size: u32) -> (r:
    bool)
    requires
        pixel_size <= MAX_DIMENSION,
    ensures
        r == size_ranges_valid(entries@, pixel_size),
{
    proof {
        lemma_total_weight_nonneg(entries@);
    }
    if entries.len() == 0 || !weights_bounded(entries) {
        return false;
    }
    let n = entries.len();
    let mut i: usize = 0;
    while i < n
        invariant
            n == entries@.len(),
            pixel_size <= MAX_DIMENSION,
            0 <= i <= n,
            forall|j: int|
                0 <= j < i ==> {
                    let v = (#[trigger] entries@[j]).value;
                    v.0.in_bounds() && v.1.in_bounds() && 0 <= v.0.to_pixels_spec(pixel_size)
                        <= v.1.to_pixels_spec(pixel_size) <= PIXEL_LIMIT
                },
        decreases n - i,
    {
        let v = &entries[i].value;
        if !(unit_in_bounds(&v.0) && unit_in_bounds(&v.1)) {
            return false;
        }
        let lo = v.0.to_pixels(pixel_size);
        let hi = v.1.to_pixels(pixel_size);
        if !(0 <= lo && lo <= hi && hi <= PIXEL_LIMIT) {
            return false;
        }
        i = i + 1;
    }
    true
}

/// State and value of a position draw between two bounds in either order.
pub open spec fn position_draw_spec(state: u32, a: int, b: int) -> (u32, int) {
    if a <= b {
        uniform_state_value(state, a, b)
    } else {
        uniform_state_value(state, b, a)
    }
}

/// A uniform position between two bounds given in either order.
pub fn sample_position(rng: &mut Rng, a: i64, b: i64) -> (r: i64)
    requires
        -0x2000_0000_0000_0000 <= a <= 0x2000_0000_0000_0000,
        -0x2000_0000_0000_0000 <= b <= 0x2000_0000_0000_0000,
    ensures
        final(rng).seed == old(rng).seed,
        (final(rng).value, r as int) == position_draw_spec(old(rng).value, a as int, b as int),
        (if a <= b {
            a <= r <= b
        } else {
            b <= r <= a
        }),
{
    if a <= b {
        crate::random::get_random_range(rng, a, b)
    } else {
        crate::random::get_random_range(rng, b, a)
    }
}

/// The pixel coordinate a fractional position rounds and clamps to.
pub open spec fn clamp_round_spec(v: int, hi: u32) -> u32 {
    let r = round_millionths_spec(v);
    if r < 0 {
        0
    } else if r > hi {
        hi
    } else {
        r as u32
    }
}

/// Round a position in millionths to the nearest pixel and clamp it to
/// `0..=hi`.
pub fn clamp_round(v: i64, hi: u32) -> (r: u32)
    requires
        -0x7000_0000_0000_0000 < v < 0x7000_0000_0000_0000,
        hi <= MAX_DIMENSION,
    ensures
        r == clamp_round_spec(v as int, hi),
{
    let rounded: i64 = if v >= 0 {
        (v + UNIT / 2) / UNIT
    } else {
        -((-v + UNIT / 2) / UNIT)
    };
    if rounded < 0 {
        0
    } else if rounded > (hi as i64) {
        hi
    } else {
        rounded as u32
    }
}

/// Rounding and clamping keeps order.
pub proof fn lemma_clamp_round_monotone(v1: int, v2: int, hi: u32)
    requires
        v1 <= v2,
    ensures
        clamp_round_spec(v1, hi) <= clamp_round_spec(v2, hi),
{
    assert(round_millionths_spec(v1) <= round_millionths_spec(v2)) by (nonlinear_arith)
        requires
            v1 <= v2,
            UNIT == 1_000_000,
    ;
}

} // verus!
