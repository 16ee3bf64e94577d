//! A small seedable linear congruential generator used for drawing symbols
//! and spawn positions. Hosts seed it once; tests inject a fixed seed, so
//! every draw is reproducible.

use vstd::prelude::*;

verus! {

/// Multiplier of the linear congruential step.
pub const LCG_MUL: u64 = 1_664_525;

/// Increment of the linear congruential step.
pub const LCG_INC: u64 = 1_013_904_223;

/// Linear congruential pseudo-random generator (not cryptographic).
#[derive(Clone, Copy, Debug, PartialEq, Eq, Structural)]
pub struct Lcg {
    pub state: u64,
}

/// One linear congruential step: multiply and add, wrapping modulo `2^64`.
pub open spec fn lcg_next(s: u64) -> u64 {
    ((s * LCG_MUL + LCG_INC) % 0x1_0000_0000_0000_0000) as u64
}

impl Lcg {
    pub fn new(seed: u64) -> (r: Lcg)
        ensures
            r.state == seed,
    {
        Lcg { state: seed }
    }

    /// Advances the generator once and returns an index below `len`.
    pub fn next_index(&mut self, len: usize) -> (r: usize)
        requires
            1 <= len,
        ensures
            final(self).state == lcg_next(old(self).state),
            r == final(self).state as int % len as int,
            r < len,
    {
        self.state = self.state.wrapping_mul(LCG_MUL).wrapping_add(LCG_INC);
        (self.state % len as u64) as usize
    }
}

} // verus!
