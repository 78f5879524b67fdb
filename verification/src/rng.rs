//! Deterministic pseudo-random number stream.
//!
//! A small xorshift generator over 32-bit state. Every draw is a pure
//! function of the previous state, so a stream is fully determined by its
//! seed; `reset` rewinds it and `skip` advances it.

use vstd::prelude::*;

verus! {

/// One step of the xorshift-32 permutation.
pub open spec fn xorshift_spec(v: u32) -> u32 {
    let a = v ^ (v << 13);
    let b = a ^ (a >> 17);
    b ^ (b << 5)
}

/// `n` steps of the xorshift-32 permutation.
pub open spec fn xorshift_iter_spec(v: u32, n: nat) -> u32
    decreases n,
{
    if n == 0 {
        v
    } else {
        xorshift_iter_spec(xorshift_spec(v), (n - 1) as nat)
    }
}

/// The value drawn from state `v` for a request in `min..=pseudo_max`:
/// `min` when the range is empty, otherwise `min` plus the state scaled
/// down from `0..=u32::MAX` onto the span.
pub open spec fn range_value_spec(v: u32, min: u32, pseudo_max: u32) -> u32 {
    if min == pseudo_max {
        min
    } else {
        (min + (v * ((pseudo_max - min) as int)) / 0xffff_ffff) as u32
    }
}

/// A seeded deterministic pseudo-random number generator.
pub struct Rng {
    pub seed: u32,
    pub value: u32,
}

impl Rng {
    /// Generate a new pseudo-random number generator from an unpredictable
    /// seed.
    pub fn new() -> (r: Rng)
        ensures
            r.value == r.seed,
    {
        let seed_buffer = entropy_bytes();
        let mut seed: u32 = 0;
        let mut i: usize = 0;
        while i < 4
            invariant
                i <= 4,
            decreases 4 - i,
        {
            seed = seed | ((seed_buffer[i] as u32) << ((i as u32) * 8));
            i = i + 1;
        }
        Rng::from_seed(seed)
    }

    /// Generate a new pseudo-random number generator from the given seed.
    /// The same seed always yields the same sequence.
    pub fn from_seed(seed: u32) -> (r: Rng)
        ensures
            r.seed == seed,
            r.value == seed,
    {
        let mut rng = Rng { seed, value: 0 };
        rng.reset();
        rng
    }

    fn xorshift(value: u32) -> (r: u32)
        ensures
            r == xorshift_spec(value),
    {
        let a = value ^ (value << 13u32);
        let b = a ^ (a >> 17u32);
        b ^ (b << 5u32)
    }

    fn recalculate(&mut self)
        ensures
            final(self).seed == old(self).seed,
            final(self).value == xorshift_spec(old(self).value),
    {
        self.value = Rng::xorshift(self.value);
    }

    /// Rewind the sequence back to its starting seed: further draws repeat
    /// the sequence produced after construction.
    pub fn reset(&mut self)
        ensures
            final(self).seed == old(self).seed,
            final(self).value == old(self).seed,
    {
        self.value = self.seed;
    }

    /// Advance the sequence as if `next` had been called `iterations` times.
    pub fn skip(&mut self, iterations: u32)
        ensures
            final(self).seed == old(self).seed,
            final(self).value == xorshift_iter_spec(old(self).value, iterations as nat),
    {
        let mut remaining: u32 = iterations;
        while remaining > 0
            invariant
                self.seed == old(self).seed,
                xorshift_iter_spec(self.value, remaining as nat) == xorshift_iter_spec(
                    old(self).value,
                    iterations as nat,
                ),
            decreases remaining,
        {
            self.recalculate();
            remaining = remaining - 1;
        }
    }

    /// Draw the next raw 32-bit value of the sequence.
    pub fn next(&mut self) -> (r: u32)
        ensures
            final(self).seed == old(self).seed,
            final(self).value == xorshift_spec(old(self).value),
            r == final(self).value,
    {
        self.recalculate();
        self.value
    }

    /// Draw a value between `min` (inclusive) and `pseudo_max` (normally
    /// exclusive; the bound itself is reached only on the rare top draw).
    /// Returns `min` without consuming a draw when the range is empty.
    pub fn next_u32_range(&mut self, min: u32, pseudo_max: u32) -> (r: u32)
        requires
            min <= pseudo_max,
        ensures
            final(self).seed == old(self).seed,
            min == pseudo_max ==> final(self).value == old(self).value && r == min,
            min != pseudo_max ==> final(self).value == xorshift_spec(old(self).value) && r
                == range_value_spec(final(self).value, min, pseudo_max),
            min <= r <= pseudo_max,
    {
        if min == pseudo_max {
            return min;
        }
        let v = self.next();
        let span = (pseudo_max - min) as u64;
        proof {
            assert((v as int) * (span as int) <= 0xffff_ffff * 0xffff_ffff)
                by (nonlinear_arith)
                requires
                    v <= 0xffff_ffffu32,
                    span <= 0xffff_ffffu64,
            ;
            assert((v as int) * (span as int) / 0xffff_ffff <= span as int)
                by (nonlinear_arith)
                requires
                    v <= 0xffff_ffffu32,
                    span >= 0,
            ;
        }
        let scaled = ((v as u64) * span) / 0xffff_ffffu64;
        min + (scaled as u32)
    }

    /// Draw a pseudo-random boolean; true on the upper half of the raw range.
    pub fn next_bool(&mut self) -> (r: bool)
        ensures
            final(self).seed == old(self).seed,
            final(self).value == xorshift_spec(old(self).value),
            r == (final(self).value >= 0x8000_0000u32),
    {
        let v = self.next();
        v >= 0x8000_0000u32
    }
}

/// Relies on getrandom::fill to produce unpredictable bytes from the
/// operating system; panics only if the system entropy source fails.
/// Nothing is assumed about the returned bytes.
#[verifier::external_body]
fn entropy_bytes() -> (r: [u8; 4]) {
    let mut buffer = [0u8; 4];
    getrandom::fill(&mut buffer).expect("Generating seed");
    buffer
}

} // verus!
