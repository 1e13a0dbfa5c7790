//! Local deterministic generator for rock placement (SplitMix64 stream).
use vstd::prelude::*;
use crate::terrain::{GOLDEN_GAMMA, splitmix_mix};

verus! {

/// A SplitMix64 stream: each draw advances the state and scrambles it.
pub struct SplitMix {
    state: u64,
}

impl SplitMix {
    /// The current state.
    pub closed spec fn state(&self) -> u64 {
        self.state
    }

    /// Draw the next value.
    pub fn next(&mut self) -> (r: u64)
        ensures
            final(self).state() == old(self).state().wrapping_add(GOLDEN_GAMMA),
            r == splitmix_mix(final(self).state()),
    {
        self.state = self.state.wrapping_add(GOLDEN_GAMMA);
        let mut z = self.state;
        z = (z ^ (z >> 30u64)).wrapping_mul(0xBF58476D1CE4E5B9u64);
        z = (z ^ (z >> 27u64)).wrapping_mul(0x94D049BB133111EBu64);
        z ^ (z >> 31u64)
    }
}

/// A stream seeded with `x`.
pub fn splitmix(x: u64) -> (r: SplitMix)
    ensures
        r.state() == x,
{
    SplitMix { state: x }
}

} // verus!
