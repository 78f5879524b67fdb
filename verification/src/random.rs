//! Distributions over the deterministic random stream.
//!
//! Every helper consumes a fixed number of raw draws and its result is a
//! pure function of the stream state it started from, which is what makes
//! whole runs reproducible from a seed. Fractional values are in millionths.

use vstd::prelude::*;

use crate::rng::{xorshift_iter_spec, xorshift_spec, Rng};
use crate::units::{SizeUnit, WeightedValue, MAX_DIMENSION, UNIT};

verus! {

/// Largest bias magnitude accepted by the biased draws.
pub const BIAS_LIMIT: i64 = 30;

/// Largest pixel count a resolved size unit may reach.
pub const PIXEL_LIMIT: i64 = 100_000_000;

/// Largest total weight a weighted list may carry.
pub const WEIGHT_LIMIT: u64 = 0x1000_0000_0000_0000;

/// The raw draw `v` scaled from `0..=u32::MAX` onto `0..=span`.
pub open spec fn scale_draw_spec(v: u32, span: int) -> int {
    (v * span) / 0xffff_ffff
}

/// State and value after a uniform draw from `min..=max`: an empty range
/// returns `min` without consuming a draw.
pub open spec fn uniform_state_value(state: u32, min: int, max: int) -> (u32, int) {
    if min == max {
        (state, min)
    } else {
        let s = xorshift_spec(state);
        (s, min + scale_draw_spec(s, max - min))
    }
}

/// `u^k` for a fraction `u` in millionths, flooring after each multiply.
pub open spec fn pow_frac_spec(u: int, k: nat) -> int
    decreases k,
{
    if k <= 1 {
        u
    } else {
        pow_frac_spec(u, (k - 1) as nat) * u / (UNIT as int)
    }
}

/// A uniform fraction skewed by an integer bias level: negative bias raises
/// the fraction to the power `1 - bias` (towards the low end), positive bias
/// applies the mirrored power (towards the high end), zero keeps it linear.
pub open spec fn bias_fraction_spec(u: int, bias: i64) -> int {
    if bias < 0 {
        pow_frac_spec(u, (1 - bias) as nat)
    } else if bias > 0 {
        (UNIT as int) - pow_frac_spec((UNIT as int) - u, (1 + bias) as nat)
    } else {
        u
    }
}

/// State and value after a biased draw from `min..=max`.
pub open spec fn biased_state_value(state: u32, min: int, max: int, bias: i64) -> (u32, int) {
    if min == max {
        (state, min)
    } else {
        let s = xorshift_spec(state);
        let u = scale_draw_spec(s, UNIT as int);
        let ub = bias_fraction_spec(u, bias);
        (s, min + ub * (max - min) / (UNIT as int))
    }
}

/// Sum of the weights of a weighted list.
pub open spec fn total_weight_spec<T>(s: Seq<WeightedValue<T>>) -> int
    decreases s.len(),
{
    if s.len() == 0 {
        0
    } else {
        s[0].weight + total_weight_spec(s.skip(1))
    }
}

/// The first index whose cumulative weight reaches `d`.
pub open spec fn weighted_index_spec<T>(s: Seq<WeightedValue<T>>, d: int) -> int
    decreases s.len(),
{
    if s.len() <= 1 {
        0
    } else if s[0].weight >= d {
        0
    } else {
        1 + weighted_index_spec(s.skip(1), d - s[0].weight)
    }
}

/// State and chosen index after a weighted choice over `s`: one draw is
/// scaled onto the total weight and the first entry whose cumulative weight
/// reaches it wins. A list with zero total weight selects the first entry
/// without consuming a draw.
pub open spec fn weighted_state_index<T>(state: u32, s: Seq<WeightedValue<T>>) -> (u32, int) {
    let total = total_weight_spec(s);
    if total == 0 {
        (state, 0)
    } else {
        let s2 = xorshift_spec(state);
        let d = scale_draw_spec(s2, total);
        (s2, weighted_index_spec(s, d))
    }
}

pub proof fn lemma_total_weight_nonneg<T>(s: Seq<WeightedValue<T>>)
    ensures
        total_weight_spec(s) >= 0,
    decreases s.len(),
{
    if s.len() > 0 {
        lemma_total_weight_nonneg(s.skip(1));
    }
}

pub proof fn lemma_weighted_index_in_range<T>(s: Seq<WeightedValue<T>>, d: int)
    requires
        s.len() > 0,
    ensures
        0 <= weighted_index_spec(s, d) < s.len(),
    decreases s.len(),
{
    if s.len() > 1 && s[0].weight < d {
        lemma_weighted_index_in_range(s.skip(1), d - s[0].weight);
    }
}

/// `n` steps of the permutation reach one more step when iterated once more.
pub proof fn lemma_xorshift_iter_snoc(v: u32, n: nat)
    ensures
        xorshift_iter_spec(v, n + 1) == xorshift_spec(xorshift_iter_spec(v, n)),
    decreases n,
{
    assert(xorshift_iter_spec(v, n + 1) == xorshift_iter_spec(xorshift_spec(v), n));
    if n == 0 {
        assert(xorshift_iter_spec(xorshift_spec(v), 0) == xorshift_spec(v));
    } else {
        lemma_xorshift_iter_snoc(xorshift_spec(v), (n - 1) as nat);
        assert(xorshift_iter_spec(v, n) == xorshift_iter_spec(xorshift_spec(v), (n - 1) as nat));
    }
}

/// The power of a fraction stays a fraction.
pub proof fn lemma_pow_frac_bounds(u: int, k: nat)
    requires
        0 <= u <= UNIT as int,
    ensures
        0 <= pow_frac_spec(u, k) <= UNIT as int,
    decreases k,
{
    if k > 1 {
        lemma_pow_frac_bounds(u, (k - 1) as nat);
        let p = pow_frac_spec(u, (k - 1) as nat);
        assert(0 <= p * u <= (UNIT as int) * (UNIT as int)) by (nonlinear_arith)
            requires
                0 <= p <= UNIT as int,
                0 <= u <= UNIT as int,
        ;
    }
}

/// A scaled draw lands inside `0..=span`.
pub proof fn lemma_scale_draw_bounds(v: u32, span: int)
    requires
        span >= 0,
    ensures
        0 <= scale_draw_spec(v, span) <= span,
    decreases span,
{
    assert(0 <= (v as int) * span <= 0xffff_ffff * span) by (nonlinear_arith)
        requires
            0 <= v <= 0xffff_ffffu32,
            span >= 0,
    ;
}

/// A pseudo-random unpredictable seed.
pub fn get_random_seed() -> u32 {
    let mut rng = Rng::new();
    rng.next()
}

/// The stream state that `get_rng` derives from a seed and an iteration
/// counter: the seed shifted by the first draw of a stream seeded with the
/// counter, so that nearby counters give unrelated streams.
pub open spec fn derived_seed_spec(seed: u32, iteration: u32) -> u32 {
    ((seed + xorshift_spec(iteration)) % 0x1_0000_0000) as u32
}

/// A fresh independent stream for one (seed, iteration) pair.
pub fn get_rng(seed: u32, iteration: u32) -> (r: Rng)
    ensures
        r.seed == derived_seed_spec(seed, iteration),
        r.value == r.seed,
{
    let mut base = Rng::from_seed(iteration);
    let shift = base.next();
    let mixed = (((seed as u64) + (shift as u64)) % 0x1_0000_0000u64) as u32;
    Rng::from_seed(mixed)
}

/// A uniform draw from `min..=max`; returns `min` without consuming a draw
/// when the range is empty.
pub fn get_random_range(rng: &mut Rng, min: i64, max: i64) -> (r: i64)
    requires
        min <= max,
        -0x2000_0000_0000_0000 <= min,
        max <= 0x2000_0000_0000_0000,
    ensures
        final(rng).seed == old(rng).seed,
        (final(rng).value, r as int) == uniform_state_value(old(rng).value, min as int, max as int),
        min <= r <= max,
{
    if min == max {
        return min;
    }
    let v = rng.next();
    let span = (max - min) as u64;
    proof {
        lemma_scale_draw_bounds(v, span as int);
    }
    let scaled = (((v as u128) * (span as u128)) / 0xffff_ffffu128) as u64;
    proof {
        assert((v as int) * (span as int) == (v as u128) * (span as u128));
    }
    min + (scaled as i64)
}

/// `u^k` for a fraction in millionths.
fn pow_frac(u: i64, k: i64) -> (r: i64)
    requires
        0 <= u <= UNIT,
        1 <= k <= 1 + BIAS_LIMIT,
    ensures
        r == pow_frac_spec(u as int, k as nat),
        0 <= r <= UNIT,
{
    proof {
        lemma_pow_frac_bounds(u as int, k as nat);
    }
    let mut acc: i64 = u;
    let mut i: i64 = 1;
    while i < k
        invariant
            1 <= i <= k,
            k <= 1 + BIAS_LIMIT,
            0 <= u <= UNIT,
            acc == pow_frac_spec(u as int, i as nat),
            0 <= acc <= UNIT,
        decreases k - i,
    {
        proof {
            assert(0 <= acc * u <= (UNIT as int) * (UNIT as int)) by (nonlinear_arith)
                requires
                    0 <= acc <= UNIT,
                    0 <= u <= UNIT,
            ;
            lemma_pow_frac_bounds(u as int, (i + 1) as nat);
        }
        acc = (acc * u) / UNIT;
        i = i + 1;
    }
    acc
}

/// A draw from `min..=max` skewed by an integer bias level: zero is linear,
/// negative bias skews towards `min`, positive towards `max`.
pub fn get_random_range_bias(rng: &mut Rng, min: i64, max: i64, bias: i64) -> (r: i64)
    requires
        min <= max,
        -0x2000_0000_0000_0000 <= min,
        max <= 0x2000_0000_0000_0000,
        -BIAS_LIMIT <= bias <= BIAS_LIMIT,
    ensures
        final(rng).seed == old(rng).seed,
        (final(rng).value, r as int) == biased_state_value(
            old(rng).value,
            min as int,
            max as int,
            bias,
        ),
        min <= r <= max,
{
    if min == max {
        return min;
    }
    let v = rng.next();
    proof {
        lemma_scale_draw_bounds(v, UNIT as int);
    }
    let u = (((v as u128) * (UNIT as u128)) / 0xffff_ffffu128) as i64;
    proof {
        assert((v as int) * (UNIT as int) == (v as u128) * (UNIT as u128));
    }
    let ub: i64 = if bias < 0 {
        pow_frac(u, 1 - bias)
    } else if bias > 0 {
        UNIT - pow_frac(UNIT - u, 1 + bias)
    } else {
        u
    };
    let span = max - min;
    proof {
        assert(0 <= ub * span <= (UNIT as int) * span) by (nonlinear_arith)
            requires
                0 <= ub <= UNIT,
                span >= 0,
        ;
    }
    min + (((ub as i128) * (span as i128) / (UNIT as i128)) as i64)
}

/// State and value (in millionths of a pixel) of a biased draw between two
/// size units resolved against `pixel_size`.
pub open spec fn size_range_bias_state_value(
    state: u32,
    min: SizeUnit,
    max: SizeUnit,
    bias: i64,
    pixel_size: u32,
) -> (u32, int) {
    biased_state_value(
        state,
        min.to_pixels_spec(pixel_size) * (UNIT as int),
        max.to_pixels_spec(pixel_size) * (UNIT as int),
        bias,
    )
}

/// True when a size unit resolves against `pixel_size` to a pixel count that
/// the samplers accept.
pub open spec fn size_unit_ok(u: SizeUnit, pixel_size: u32) -> bool {
    u.in_bounds() && -PIXEL_LIMIT <= u.to_pixels_spec(pixel_size) <= PIXEL_LIMIT
}

/// A biased draw between two size units, in millionths of a pixel.
pub fn get_random_size_range_bias(
    rng: &mut Rng,
    min: &SizeUnit,
    max: &SizeUnit,
    bias: i64,
    pixel_size: u32,
) -> (r: i64)
    requires
        pixel_size <= MAX_DIMENSION,
        size_unit_ok(*min, pixel_size),
        size_unit_ok(*max, pixel_size),
        min.to_pixels_spec(pixel_size) <= max.to_pixels_spec(pixel_size),
        -BIAS_LIMIT <= bias <= BIAS_LIMIT,
    ensures
        final(rng).seed == old(rng).seed,
        (final(rng).value, r as int) == size_range_bias_state_value(
            old(rng).value,
            *min,
            *max,
            bias,
            pixel_size,
        ),
        min.to_pixels_spec(pixel_size) * (UNIT as int) <= r as int <= max.to_pixels_spec(
            pixel_size,
        ) * (UNIT as int),
{
    let min_pixels = min.to_pixels(pixel_size);
    let max_pixels = max.to_pixels(pixel_size);
    proof {
        assert(min_pixels * (UNIT as int) <= max_pixels * (UNIT as int)
            && -0x2000_0000_0000_0000 <= min_pixels * (UNIT as int) && max_pixels * (UNIT as int)
            <= 0x2000_0000_0000_0000) by (nonlinear_arith)
            requires
                min_pixels <= max_pixels,
                -PIXEL_LIMIT <= min_pixels <= PIXEL_LIMIT,
                -PIXEL_LIMIT <= max_pixels <= PIXEL_LIMIT,
                UNIT == 1_000_000,
                PIXEL_LIMIT == 100_000_000,
        ;
    }
    get_random_range_bias(rng, min_pixels * UNIT, max_pixels * UNIT, bias)
}

/// A weighted choice among the entries: one draw lands on the cumulative
/// weight line and the first entry whose cumulative weight reaches it wins.
pub fn get_random_entry_weighted<'a, T>(rng: &mut Rng, entries: &'a Vec<WeightedValue<T>>) -> (r:
    &'a T)
    requires
        entries@.len() > 0,
        total_weight_spec(entries@) <= WEIGHT_LIMIT,
    ensures
        final(rng).seed == old(rng).seed,
        final(rng).value == weighted_state_index(old(rng).value, entries@).0,
        ({
            let idx = weighted_state_index(old(rng).value, entries@).1;
            0 <= idx < entries@.len() && r == &entries@[idx].value
        }),
{
    proof {
        lemma_total_weight_nonneg(entries@);
    }
    let ghost s0 = rng.value;
    let total = sum_weights(entries);
    if total == 0 {
        proof {
            lemma_weighted_index_zero(entries@, 0);
        }
        return &entries[0].value;
    }
    let v = rng.next();
    proof {
        lemma_scale_draw_bounds(v, total as int);
    }
    let d = (((v as u128) * (total as u128)) / 0xffff_ffffu128) as u64;
    proof {
        assert((v as int) * (total as int) == (v as u128) * (total as u128));
        lemma_weighted_index_in_range(entries@, d as int);
        assert(entries@.skip(0) =~= entries@);
    }
    let ghost picked = weighted_state_index(s0, entries@).1;
    let n = entries.len();
    let mut i: usize = 0;
    let mut acc: u64 = 0;
    loop
        invariant
            n == entries@.len(),
            0 <= i < n,
            entries@.len() > 0,
            total_weight_spec(entries@) <= WEIGHT_LIMIT,
            total_weight_spec(entries@) > 0,
            acc == total_weight_spec(entries@) - total_weight_spec(entries@.skip(i as int)),
            acc <= d as int,
            picked == weighted_index_spec(entries@, d as int),
            picked == weighted_state_index(old(rng).value, entries@).1,
            picked == i + weighted_index_spec(entries@.skip(i as int), d - acc),
            d <= total_weight_spec(entries@),
            0 <= picked < entries@.len(),
            rng.seed == old(rng).seed,
            rng.value == weighted_state_index(old(rng).value, entries@).0,
        decreases entries@.len() - i,
    {
        proof {
            lemma_total_weight_skip_step(entries@, i as int);
            lemma_total_weight_nonneg(entries@.skip(i as int + 1));
        }
        let w = entries[i].weight;
        if acc + w >= d {
            proof {
                assert(entries@.skip(i as int)[0] == entries@[i as int]);
                assert(weighted_index_spec(entries@.skip(i as int), d - acc) == 0);
                assert(picked == i as int);
            }
            return &entries[i].value;
        }
        proof {
            assert(entries@.skip(i as int)[0] == entries@[i as int]);
            assert(entries@.skip(i as int).len() > 1) by {
                if entries@.skip(i as int).len() <= 1 {
                    assert(total_weight_spec(entries@.skip(i as int + 1)) == 0);
                }
            }
            assert(entries@.skip(i as int).skip(1) =~= entries@.skip(i as int + 1));
        }
        acc = acc + w;
        i = i + 1;
    }
}

/// The cumulative weight dropped when skipping one more entry is that
/// entry's weight.
pub proof fn lemma_total_weight_skip_step<T>(s: Seq<WeightedValue<T>>, i: int)
    requires
        0 <= i < s.len(),
    ensures
        total_weight_spec(s.skip(i)) == s[i].weight + total_weight_spec(s.skip(i + 1)),
{
    assert(s.skip(i)[0] == s[i]);
    assert(s.skip(i).skip(1) =~= s.skip(i + 1));
}

/// With a zero demand the first entry always wins.
proof fn lemma_weighted_index_zero<T>(s: Seq<WeightedValue<T>>, d: int)
    requires
        s.len() > 0,
        d <= 0,
    ensures
        weighted_index_spec(s, d) == 0,
{
}

/// A weighted list of plain ranges the samplers accept: non-empty, with a
/// bounded total weight, every range ordered and inside `0..=UNIT`.
pub open spec fn ranges_valid(s: Seq<WeightedValue<(i64, i64)>>) -> bool {
    s.len() > 0 && 0 <= total_weight_spec(s) <= WEIGHT_LIMIT && forall|i: int|
        0 <= i < s.len() ==> 0 <= (#[trigger] s[i]).value.0 <= s[i].value.1 <= UNIT
}

/// A weighted list of size ranges the samplers accept against a reference
/// dimension: non-empty, with a bounded total weight, every bound resolving
/// to an ordered, non-negative pixel count within the accepted limit.
pub open spec fn size_ranges_valid(
    s: Seq<WeightedValue<(SizeUnit, SizeUnit)>>,
    pixel_size: u32,
) -> bool {
    s.len() > 0 && 0 <= total_weight_spec(s) <= WEIGHT_LIMIT && forall|i: int|
        0 <= i < s.len() ==> {
            let v = (#[trigger] s[i]).value;
            v.0.in_bounds() && v.1.in_bounds() && 0 <= v.0.to_pixels_spec(pixel_size)
                <= v.1.to_pixels_spec(pixel_size) <= PIXEL_LIMIT
        }
}

/// State and value after a weighted pick of a range followed by a biased
/// draw from it.
pub open spec fn weighted_range_bias_draw(
    state: u32,
    s: Seq<WeightedValue<(i64, i64)>>,
    bias: i64,
) -> (u32, int) {
    let pick = weighted_state_index(state, s);
    let range = s[pick.1].value;
    biased_state_value(pick.0, range.0 as int, range.1 as int, bias)
}

/// State and value (in millionths of a pixel) after a weighted pick of a
/// size range followed by a biased draw from it.
pub open spec fn weighted_size_bias_draw(
    state: u32,
    s: Seq<WeightedValue<(SizeUnit, SizeUnit)>>,
    bias: i64,
    pixel_size: u32,
) -> (u32, int) {
    let pick = weighted_state_index(state, s);
    let range = s[pick.1].value;
    size_range_bias_state_value(pick.0, range.0, range.1, bias, pixel_size)
}

/// Pick one of the weighted ranges, then draw from it with the given bias.
pub fn get_random_ranges_bias_weighted(
    rng: &mut Rng,
    ranges: &Vec<WeightedValue<(i64, i64)>>,
    bias: i64,
) -> (r: i64)
    requires
        ranges_valid(ranges@),
        -BIAS_LIMIT <= bias <= BIAS_LIMIT,
    ensures
        final(rng).seed == old(rng).seed,
        (final(rng).value, r as int) == weighted_range_bias_draw(old(rng).value, ranges@, bias),
        0 <= r <= UNIT,
{
    let range = *get_random_entry_weighted(rng, ranges);
    get_random_range_bias(rng, range.0, range.1, bias)
}

/// Pick one of the weighted size ranges, then draw from it with the given
/// bias; the result is in millionths of a pixel.
pub fn get_random_size_ranges_bias_weighted(
    rng: &mut Rng,
    ranges: &Vec<WeightedValue<(SizeUnit, SizeUnit)>>,
    bias: i64,
    pixel_size: u32,
) -> (r: i64)
    requires
        size_ranges_valid(ranges@, pixel_size),
        pixel_size <= MAX_DIMENSION,
        -BIAS_LIMIT <= bias <= BIAS_LIMIT,
    ensures
        final(rng).seed == old(rng).seed,
        (final(rng).value, r as int) == weighted_size_bias_draw(
            old(rng).value,
            ranges@,
            bias,
            pixel_size,
        ),
        0 <= r <= PIXEL_LIMIT * UNIT,
{
    let range = get_random_entry_weighted(rng, ranges);
    let min = range.0;
    let max = range.1;
    proof {
        assert(0 <= min.to_pixels_spec(pixel_size) * (UNIT as int) && max.to_pixels_spec(
            pixel_size,
        ) * (UNIT as int) <= (PIXEL_LIMIT as int) * (UNIT as int) && min.to_pixels_spec(pixel_size)
            * (UNIT as int) <= max.to_pixels_spec(pixel_size) * (UNIT as int))
            by (nonlinear_arith)
            requires
                0 <= min.to_pixels_spec(pixel_size) <= max.to_pixels_spec(pixel_size)
                    <= PIXEL_LIMIT,
                UNIT == 1_000_000,
        ;
    }
    get_random_size_range_bias(rng, &min, &max, bias, pixel_size)
}

/// The color byte drawn from raw state `v`: the state scaled onto `0..=256`
/// and truncated to a byte, so the top draw wraps to zero.
pub open spec fn color_byte_spec(v: u32) -> u8 {
    ((v * 256) / 0xffff_ffff % 256) as u8
}

/// A uniformly random RGB color; consumes three draws.
pub fn get_random_color(rng: &mut Rng) -> (r: [u8; 3])
    ensures
        final(rng).seed == old(rng).seed,
        final(rng).value == xorshift_iter_spec(old(rng).value, 3),
        r@[0] == color_byte_spec(xorshift_iter_spec(old(rng).value, 1)),
        r@[1] == color_byte_spec(xorshift_iter_spec(old(rng).value, 2)),
        r@[2] == color_byte_spec(xorshift_iter_spec(old(rng).value, 3)),
{
    let ghost s0 = rng.value;
    let a = rng.next_u32_range(0, 256);
    let b = rng.next_u32_range(0, 256);
    let c = rng.next_u32_range(0, 256);
    proof {
        lemma_xorshift_iter_snoc(s0, 0);
        lemma_xorshift_iter_snoc(s0, 1);
        lemma_xorshift_iter_snoc(s0, 2);
        assert(xorshift_iter_spec(s0, 0) == s0);
        lemma_scale_draw_bounds(xorshift_spec(s0), 256);
        lemma_scale_draw_bounds(xorshift_spec(xorshift_spec(s0)), 256);
        lemma_scale_draw_bounds(xorshift_spec(xorshift_spec(xorshift_spec(s0))), 256);
    }
    [(a % 256) as u8, (b % 256) as u8, (c % 256) as u8]
}

/// Largest magnitude of a value held in a noise table.
pub const NOISE_LIMIT: i64 = 100_000_000_000_000;

/// Entry `i` of a noise table drawn from starting state `s0`: a uniform
/// draw from `min..=max` with the `i+1`-th raw value of the stream.
pub open spec fn noise_entry_spec(s0: u32, min: int, max: int, i: int) -> int {
    if min == max {
        min
    } else {
        min + scale_draw_spec(xorshift_iter_spec(s0, (i + 1) as nat), max - min)
    }
}

/// A table of 256 uniform draws from `min..=max`, used to perturb painted
/// edges.
pub fn get_random_noise_sequence(rng: &mut Rng, min: i64, max: i64) -> (r: Vec<i64>)
    requires
        min <= max,
        -NOISE_LIMIT <= min,
        max <= NOISE_LIMIT,
    ensures
        final(rng).seed == old(rng).seed,
        min == max ==> final(rng).value == old(rng).value,
        min != max ==> final(rng).value == xorshift_iter_spec(old(rng).value, 256),
        r@.len() == 256,
        forall|i: int|
            0 <= i < 256 ==> r@[i] == noise_entry_spec(old(rng).value, min as int, max as int, i),
        forall|i: int| 0 <= i < 256 ==> min <= #[trigger] r@[i] <= max,
    {
    let ghost s0 = rng.value;
    let mut out: Vec<i64> = Vec::new();
    let mut i: usize = 0;
    while i < 256
        invariant
            min <= max,
            -NOISE_LIMIT <= min,
            max <= NOISE_LIMIT,
            0 <= i <= 256,
            out@.len() == i,
            rng.seed == old(rng).seed,
            min == max ==> rng.value == s0,
            min != max ==> rng.value == xorshift_iter_spec(s0, i as nat),
            s0 == old(rng).value,
            forall|j: int|
                0 <= j < i ==> out@[j] == noise_entry_spec(s0, min as int, max as int, j),
            forall|j: int| 0 <= j < i ==> min <= #[trigger] out@[j] <= max,
        decreases 256 - i,
    {
        proof {
            if min != max {
                lemma_xorshift_iter_snoc(s0, i as nat);
            }
        }
        let v = get_random_range(rng, min, max);
        out.push(v);
        i = i + 1;
    }
    out
}

/// The table value interpolated at `position` (in millionths): the
/// fractional part of the position selects two neighboring entries and a
/// cubic smoothstep, shaped like the cosine ramp, mixes them.
pub open spec fn noise_sample_spec(noise: Seq<i64>, position: int) -> int {
    let pp = position % (UNIT as int);
    let scaled = pp * 256;
    let p1 = scaled / (UNIT as int);
    let p2 = if p1 == 255 {
        0
    } else {
        p1 + 1
    };
    let f = scaled % (UNIT as int);
    let s = (3 * (f * f) * (UNIT as int) - 2 * ((f * f) * f)) / 1_000_000_000_000;
    let v1 = noise[p1] as int;
    let v2 = noise[p2] as int;
    if v2 >= v1 {
        v1 + (v2 - v1) * s / (UNIT as int)
    } else {
        v1 - (v1 - v2) * s / (UNIT as int)
    }
}

/// Sample the noise table at a fractional position, smoothing between the
/// two nearest entries.
pub fn get_noise_value(noise: &Vec<i64>, position: i64) -> (r: i64)
    requires
        noise@.len() == 256,
        position >= 0,
        forall|i: int| 0 <= i < 256 ==> -NOISE_LIMIT <= #[trigger] noise@[i] <= NOISE_LIMIT,
    ensures
        r == noise_sample_spec(noise@, position as int),
        -NOISE_LIMIT <= r <= NOISE_LIMIT,
{
    let pp: i64 = position % UNIT;
    let scaled: i64 = pp * 256;
    let p1: usize = (scaled / UNIT) as usize;
    let p2: usize = if p1 == 255 {
        0
    } else {
        p1 + 1
    };
    let f: i64 = scaled % UNIT;
    proof {
        assert(0 <= (scaled as int) / (UNIT as int) <= 255) by (nonlinear_arith)
            requires
                0 <= scaled as int <= 256 * ((UNIT as int) - 1),
                UNIT == 1_000_000,
        ;
        assert(0 <= 3 * ((f as int) * (f as int)) * (UNIT as int) - 2 * (((f as int) * (f as int))
            * (f as int)) <= 3_000_000_000_000_000_000) by (nonlinear_arith)
            requires
                0 <= f < UNIT,
                UNIT == 1_000_000,
        ;
        assert(0 <= (3 * ((f as int) * (f as int)) * (UNIT as int) - 2 * (((f as int) * (f as int))
            * (f as int))) / 1_000_000_000_000 <= UNIT as int) by (nonlinear_arith)
            requires
                0 <= f < UNIT,
                UNIT == 1_000_000,
        ;
    }
    proof {
        assert(0 <= (f as int) * (f as int) <= 1_000_000_000_000) by (nonlinear_arith)
            requires
                0 <= f < 1_000_000,
        ;
        assert(0 <= ((f as int) * (f as int)) * (f as int) <= 1_000_000_000_000_000_000)
            by (nonlinear_arith)
            requires
                0 <= f < 1_000_000,
        ;
    }
    let fi: i128 = f as i128;
    let s: i64 = ((3 * (fi * fi) * (UNIT as i128) - 2 * ((fi * fi) * fi)) / 1_000_000_000_000i128)
        as i64;
    let v1: i64 = noise[p1];
    let v2: i64 = noise[p2];
    if v2 >= v1 {
        proof {
            assert(0 <= ((v2 - v1) as int) * (s as int) / (UNIT as int) <= (v2 - v1) as int)
                by (nonlinear_arith)
                requires
                    v2 >= v1,
                    0 <= s <= UNIT,
                    UNIT == 1_000_000,
            ;
        }
        v1 + ((((v2 - v1) as i128) * (s as i128) / (UNIT as i128)) as i64)
    } else {
        proof {
            assert(0 <= ((v1 - v2) as int) * (s as int) / (UNIT as int) <= (v1 - v2) as int)
                by (nonlinear_arith)
                requires
                    v1 > v2,
                    0 <= s <= UNIT,
                    UNIT == 1_000_000,
            ;
        }
        v1 - ((((v1 - v2) as i128) * (s as i128) / (UNIT as i128)) as i64)
    }
}

/// Sum of the weights of the entries.
fn sum_weights<T>(entries: &Vec<WeightedValue<T>>) -> (r: u64)
    requires
        total_weight_spec(entries@) <= WEIGHT_LIMIT,
    ensures
        r == total_weight_spec(entries@),
{
    proof {
        lemma_total_weight_nonneg(entries@);
        assert(entries@.skip(0) =~= entries@);
    }
    let mut acc: u64 = 0;
    let mut i: usize = 0;
    while i < entries.len()
        invariant
            0 <= i <= entries@.len(),
            total_weight_spec(entries@) <= WEIGHT_LIMIT,
            acc == total_weight_spec(entries@) - total_weight_spec(entries@.skip(i as int)),
        decreases entries@.len() - i,
    {
        proof {
            lemma_total_weight_skip_step(entries@, i as int);
            lemma_total_weight_nonneg(entries@.skip(i as int + 1));
            lemma_total_weight_nonneg(entries@.skip(i as int));
        }
        acc = acc + entries[i].weight;
        i = i + 1;
    }
    proof {
        assert(entries@.skip(entries@.len() as int).len() == 0);
    }
    acc
}

} // verus!
