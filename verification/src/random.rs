//! The one source of chance: rolls from the thread's random generator.

use rand::Rng;
use vstd::prelude::*;

verus! {

/// `rand::thread_rng` and `Rng::gen_range` on `0..bound`: some number below
/// `bound`. Which one is up to the generator.
#[verifier::external_body]
pub(crate) fn roll(bound: u32) -> (r: u32)
    requires
        bound > 0,
    ensures
        r < bound,
{
    rand::thread_rng().gen_range(0..bound)
}

} // verus!
