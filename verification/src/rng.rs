//! A seeded source of random numbers.
//!
//! The numbers come from `fastrand`. Its generator is a function of its
//! state alone, so a run can be repeated from the seed it started with: the
//! same seed gives the same numbers, and the same level.

use vstd::prelude::*;

verus! {

/// What `fastrand::Rng::i32(lo..hi)` gives on a generator whose state is
/// `seed`: the number drawn and the state of the generator after the draw.
pub uninterp spec fn rng_i32(seed: u64, lo: i32, hi: i32) -> (i32, u64);

/// `fastrand::Rng::i32` on the range `lo..hi`, called on a generator that
/// `Rng::with_seed(seed)` made; the new state is read with
/// `Rng::get_seed`. The number drawn lies in the range. The call panics on
/// an empty range, which `requires` rules out.
#[verifier::external_body]
fn draw_i32(seed: u64, lo: i32, hi: i32) -> (drawn: (i32, u64))
    requires
        lo < hi,
    ensures
        drawn == rng_i32(seed, lo, hi),
        lo <= drawn.0 < hi,
{
    let rng = fastrand::Rng::with_seed(seed);
    let value = rng.i32(lo..hi);
    (value, rng.get_seed())
}

/// A random number generator that is known by its state.
#[derive(Copy, Clone, PartialEq, Eq, Structural, Debug)]
pub struct SeededRng {
    pub seed: u64,
}

impl SeededRng {
    /// The generator that starts from `seed`.
    pub fn with_seed(seed: u64) -> (rng: SeededRng)
        ensures
            rng.seed == seed,
    {
        SeededRng { seed }
    }

    /// The current state: a generator made from it continues this one.
    pub fn get_seed(&self) -> (seed: u64)
        ensures
            seed == self.seed,
    {
        self.seed
    }

    /// Draws a number from `lo..hi` and moves the generator on.
    pub fn i32(&mut self, lo: i32, hi: i32) -> (value: i32)
        requires
            lo < hi,
        ensures
            value == rng_i32(old(self).seed, lo, hi).0,
            final(self).seed == rng_i32(old(self).seed, lo, hi).1,
            lo <= value < hi,
    {
        let drawn = draw_i32(self.seed, lo, hi);
        self.seed = drawn.1;
        drawn.0
    }
}

} // verus!
