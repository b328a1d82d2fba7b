use vstd::prelude::*;

verus! {

/// Multiplier of the linear congruential generator (odd, chosen for a
/// full-period sequence modulo 2^64).
pub const LCG_MULTIPLIER: u64 = 13891176665706064842;

/// Additive constant of the linear congruential generator.
pub const LCG_INCREMENT: u64 = 2227057010910366687;

/// Seed used when the platform entropy source is unavailable: the
/// generator then degrades to a fixed, deterministic sequence.
pub const FALLBACK_SEED: u64 = 12345678901234567;

/// One step of the linear congruential generator:
/// `state' = state * A + C (mod 2^64)`.
pub open spec fn lcg_next(s: u64) -> u64 {
    vstd::wrapping::u64_specs::wrapping_add(
        vstd::wrapping::u64_specs::wrapping_mul(LCG_MULTIPLIER, s),
        LCG_INCREMENT,
    )
}

/// The state after `n` draws from seed `seed`.
pub open spec fn nth_state(seed: u64, n: nat) -> u64
    decreases n,
{
    if n == 0 {
        seed
    } else {
        lcg_next(nth_state(seed, (n - 1) as nat))
    }
}

/// Whether a draw made in state `s` comes out true under probability
/// `chance_ppm` parts per million: the drawn fraction, compared against
/// the chance with both sides brought to the denominator 10^6 * 2^64.
pub open spec fn bool_outcome(s: u64, chance_ppm: u64) -> bool {
    (lcg_next(s) as int) * 1_000_000 < (chance_ppm as int) * 0x1_0000_0000_0000_0000
}

/// The value drawn in state `s` from the half-open range `[min, max)`:
/// `min + (max - min) * fraction`, with the fraction `lcg_next(s) / 2^64`.
pub open spec fn range_outcome(s: u64, min: i64, max: i64) -> int {
    min + ((max - min) * (lcg_next(s) as int)) / 0x1_0000_0000_0000_0000
}

/// A small deterministic pseudo-random source: a linear congruential
/// generator over a 64-bit state, seeded once from platform entropy.
/// Every draw is a pure function of the state, so two generators with
/// equal seeds produce identical sequences.
#[derive(Clone, Copy, PartialEq, Eq, Structural, Debug)]
pub struct Rng {
    pub state: u64,
}

impl Rng {
    /// Builds the generator from the entropy the platform offered, or
    /// from the fixed fallback seed where none was available.
    pub fn new(seed: Option<u64>) -> (r: Rng)
        ensures
            r.state == seed_or_fallback(seed),
    {
        match seed {
            Some(s) => Rng { state: s },
            None => Rng { state: FALLBACK_SEED },
        }
    }

    /// Advances the state once and draws the unit-interval value every
    /// other draw is derived from. The value is the fraction `r / 2^64`
    /// in `[0, 1)`, handed out as its 64-bit numerator.
    pub fn random_float(&mut self) -> (r: u64)
        ensures
            final(self).state == lcg_next(old(self).state),
            r == final(self).state,
    {
        let next = LCG_MULTIPLIER.wrapping_mul(self.state).wrapping_add(LCG_INCREMENT);
        self.state = next;
        next
    }

    /// Draws a value from the half-open range `[min, max)`
    /// (or `min` itself where the range is empty).
    pub fn random_range(&mut self, min: i64, max: i64) -> (r: i64)
        requires
            min <= max,
            max - min <= i64::MAX,
        ensures
            final(self).state == lcg_next(old(self).state),
            r == range_outcome(old(self).state, min, max),
            min <= r,
            min < max ==> r < max,
            min == max ==> r == min,
    {
        let f = self.random_float();
        let span: u64 = (max - min) as u64;
        proof {
            assert((span as int) * (f as int) <= (span as int) * (u64::MAX as int)) by (nonlinear_arith)
                requires
                    f <= u64::MAX,
                    span >= 0,
            ;
            assert((span as int) * (u64::MAX as int) < u128::MAX) by (nonlinear_arith)
                requires
                    span <= u64::MAX,
            ;
        }
        let prod: u128 = (span as u128) * (f as u128);
        let off128: u128 = prod / 0x1_0000_0000_0000_0000u128;
        proof {
            if span > 0 {
                assert((span as u128) * (f as u128) < (span as u128) * 0x1_0000_0000_0000_0000u128)
                    by (nonlinear_arith)
                    requires
                        f <= u64::MAX,
                        span > 0,
                ;
                assert(off128 < span as u128);
            } else {
                assert(prod == 0) by (nonlinear_arith)
                    requires
                        span == 0,
                        prod == (span as u128) * (f as u128),
                ;
            }
        }
        let off: i64 = off128 as i64;
        min + off
    }

    /// Draws a boolean that is true with probability `chance_ppm`
    /// parts per million.
    pub fn random_bool(&mut self, chance_ppm: u64) -> (r: bool)
        requires
            chance_ppm <= 1_000_000,
        ensures
            final(self).state == lcg_next(old(self).state),
            r == bool_outcome(old(self).state, chance_ppm),
    {
        let f = self.random_float();
        (f as u128) * 1_000_000u128 < (chance_ppm as u128) * 0x1_0000_0000_0000_0000u128
    }
}

/// The seed actually used: the entropy the platform offered, or the
/// fixed fallback.
pub open spec fn seed_or_fallback(seed: Option<u64>) -> u64 {
    match seed {
        Some(s) => s,
        None => FALLBACK_SEED,
    }
}

/// Determinism of the generator: two generators started from equal
/// seeds are in equal states after any number of draws, so they hand
/// out identical sequences.
pub proof fn lemma_same_seed_same_sequence(seed1: u64, seed2: u64, n: nat)
    requires
        seed1 == seed2,
    ensures
        nth_state(seed1, n) == nth_state(seed2, n),
    decreases n,
{
    if n > 0 {
        lemma_same_seed_same_sequence(seed1, seed2, (n - 1) as nat);
    }
}

} // verus!
