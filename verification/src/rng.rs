//! Deterministic pseudo-random stream shared by the statistical generators.
//!
//! A seeded 64-bit mixing sequence: the state walks a fixed odd increment and
//! each output is a bijective scramble of the state. The whole stream is a
//! function of the seed alone, so a benchmark run is reproducible; the
//! contracts below pin every output exactly.

use vstd::prelude::*;

verus! {

/// State after one step: the fixed odd increment is added, wrapping.
pub open spec fn stream_step(s: u64) -> u64 {
    s.wrapping_add(0x9E3779B97F4A7C15)
}

/// Output scramble of one state value: two multiply-xorshift rounds.
pub open spec fn stream_mix(s: u64) -> u64 {
    let z0 = (s ^ (s >> 30)).wrapping_mul(0xBF58476D1CE4E5B9);
    let z1 = (z0 ^ (z0 >> 27)).wrapping_mul(0x94D049BB133111EB);
    z1 ^ (z1 >> 31)
}

/// A seeded pseudo-random stream of 64-bit values.
pub struct RandomStream {
    pub state: u64,
}

impl RandomStream {
    /// A stream starting from `seed`; equal seeds give equal streams.
    pub fn new(seed: u64) -> (r: RandomStream)
        ensures
            r.state == seed,
    {
        RandomStream { state: seed }
    }

    /// The next raw 64-bit value of the stream.
    pub fn next_u64(&mut self) -> (r: u64)
        ensures
            final(self).state == stream_step(old(self).state),
            r == stream_mix(final(self).state),
    {
        self.state = self.state.wrapping_add(0x9E3779B97F4A7C15);
        let s = self.state;
        let z0 = (s ^ (s >> 30)).wrapping_mul(0xBF58476D1CE4E5B9);
        let z1 = (z0 ^ (z0 >> 27)).wrapping_mul(0x94D049BB133111EB);
        z1 ^ (z1 >> 31)
    }

    /// The next value reduced below `bound`.
    pub fn next_below(&mut self, bound: u64) -> (r: u64)
        requires
            bound >= 1,
        ensures
            final(self).state == stream_step(old(self).state),
            r == stream_mix(final(self).state) % bound,
            r < bound,
    {
        let x = self.next_u64();
        x % bound
    }
}

} // verus!
