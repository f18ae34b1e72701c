//! The per-injector pseudo-random generator that gates probabilistic rules.
//!
//! A rule with probability `percent` fires on a call exactly when the draw
//! for that call is below `percent`; draws are always below 100, so
//! `percent == 100` fires deterministically and `percent == 0` never fires.

use vstd::prelude::*;

verus! {

pub const PRNG_MUL: u64 = 6364136223846793005;

pub const PRNG_INC: u64 = 1442695040888963407;

/// The generator state after one step of the linear congruence.
#[verifier::opaque]
pub open spec fn spec_prng_next(s: u64) -> u64 {
    vstd::wrapping::u64_specs::wrapping_add(
        vstd::wrapping::u64_specs::wrapping_mul(s, PRNG_MUL),
        PRNG_INC,
    )
}

/// The draw produced by one step from state `s`: always below 100.
#[verifier::opaque]
pub open spec fn spec_roll(s: u64) -> u8 {
    (((spec_prng_next(s) >> 33) % 100) as u8)
}

/// A deterministic pseudo-random generator. Its whole behaviour is a
/// function of the seed, so every decision downstream of it is too.
#[derive(Clone, Copy, PartialEq, Eq, Structural, Debug)]
pub struct Prng {
    pub state: u64,
}

impl Prng {
    /// A generator starting from the given seed.
    pub fn new(seed: u64) -> (r: Prng)
        ensures
            r.state == seed,
    {
        Prng { state: seed }
    }

    /// Step the generator and hand out a draw in `0..100`.
    pub fn roll(&mut self) -> (r: u8)
        ensures
            final(self).state == spec_prng_next(old(self).state),
            r == spec_roll(old(self).state),
            r < 100,
    {
        proof {
            reveal(spec_prng_next);
            reveal(spec_roll);
        }
        self.state = self.state.wrapping_mul(PRNG_MUL).wrapping_add(PRNG_INC);
        let shifted = self.state >> 33;
        let m = shifted % 100;
        assert(m < 100);
        m as u8
    }
}

/// Whether a probabilistic rule of the given percentage fires on a draw.
pub open spec fn gate_fires(percent: u8, roll: u8) -> bool {
    roll < percent
}

/// A rule with percent 100 fires on every draw the generator can produce.
pub proof fn lemma_full_percent_always_fires(s: u64)
    ensures
        gate_fires(100, spec_roll(s)),
{
    reveal(spec_roll);
    assert(spec_roll(s) < 100);
}

/// A rule with percent 0 never fires.
pub proof fn lemma_zero_percent_never_fires(roll: u8)
    ensures
        !gate_fires(0, roll),
{
}

} // verus!
