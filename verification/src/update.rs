//! Tiny deterministic generator for demo variations.
use vstd::prelude::*;
use crate::terrain::{GOLDEN_GAMMA, splitmix_mix};

verus! {

/// Advance the SplitMix64 state and return the scrambled new state.
pub fn splitmix64(state: &mut u64) -> (r: u64)
    ensures
        *final(state) == old(state).wrapping_add(GOLDEN_GAMMA),
        *final(state) != *old(state),
        r == splitmix_mix(*final(state)),
{
    *state = state.wrapping_add(GOLDEN_GAMMA);
    let mut z = *state;
    z = (z ^ (z >> 30u64)).wrapping_mul(0xBF58476D1CE4E5B9u64);
    z = (z ^ (z >> 27u64)).wrapping_mul(0x94D049BB133111EBu64);
    z ^ (z >> 31u64)
}

} // verus!
