//! The splitmix64 generator that seeds the example corpus.

use vstd::prelude::*;

verus! {

/// The splitmix64 increment (the golden-ratio constant).
pub const GAMMA: u64 = 0x9e3779b97f4a7c15;

/// The splitmix64 output function applied to the state `z`.
pub open spec fn splitmix_output(z: u64) -> u64 {
    let a = (z ^ (z >> 30u64)).wrapping_mul(0xbf58476d1ce4e5b9u64);
    let b = (a ^ (a >> 27u64)).wrapping_mul(0x94d049bb133111ebu64);
    b ^ (b >> 31u64)
}

/// A splitmix64 generator; the field is its state.
pub struct Rng(pub u64);

impl Rng {
    /// Advances the state by `GAMMA` (wrapping) and returns the output of the
    /// new state.
    pub fn next(&mut self) -> (r: u64)
        ensures
            final(self).0 == old(self).0.wrapping_add(GAMMA),
            r == splitmix_output(final(self).0),
    {
        self.0 = self.0.wrapping_add(GAMMA);
        let mut z = self.0;
        z = (z ^ (z >> 30)).wrapping_mul(0xbf58476d1ce4e5b9);
        z = (z ^ (z >> 27)).wrapping_mul(0x94d049bb133111eb);
        z ^ (z >> 31)
    }
}

} // verus!
