//! Draws from the thread-local random number generator, each kept with the
//! range it was drawn from.

use vstd::prelude::*;
use rand::Rng;

verus! {

/// `rand`'s handle on the thread-local random number generator.
#[verifier::external_type_specification]
#[verifier::external_body]
pub struct ExThreadRng(rand::rngs::ThreadRng);

/// `rand::thread_rng` hands out the thread-local generator; nothing is
/// promised of its state.
pub assume_specification[ rand::thread_rng ]() -> rand::rngs::ThreadRng;

/// A value drawn from the generator, with the inclusive range it was drawn
/// from. Only `gen_u32_in` makes one.
pub struct Draw {
    value: u32,
    lo: u32,
    hi: u32,
}

impl Draw {
    /// The value drawn.
    pub closed spec fn drawn(self) -> u32 {
        self.value
    }

    /// The lower end of the range it was drawn from.
    pub closed spec fn low(self) -> u32 {
        self.lo
    }

    /// The upper end of the range it was drawn from.
    pub closed spec fn high(self) -> u32 {
        self.hi
    }

    /// The value drawn.
    pub fn value(&self) -> (v: u32)
        ensures
            v == self.drawn(),
    {
        self.value
    }
}

/// `Rng::gen_range` over the inclusive range `lo..=hi` of `u32`: a value of
/// that range (the range is not empty, or it would panic), kept with the
/// range it was drawn from.
#[verifier::external_body]
pub(crate) fn gen_u32_in(rng: &mut rand::rngs::ThreadRng, lo: u32, hi: u32) -> (d: Draw)
    requires
        lo <= hi,
    ensures
        d.low() == lo,
        d.high() == hi,
        lo <= d.drawn() <= hi,
{
    Draw { value: rng.gen_range(lo..=hi), lo, hi }
}

} // verus!
