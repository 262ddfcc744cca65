//! Random choices, drawn from the thread-local generator of `rand`.

use rand::RngExt;
use vstd::prelude::*;

verus! {

/// `rand::rng().random_range(0..bound)`: a uniformly drawn number below
/// `bound`. Only its range is stated; `random_range` panics on an empty
/// range, and `rand::rng` where the operating system's generator fails at
/// first seeding.
#[verifier::external_body]
pub(crate) fn random_below(bound: usize) -> (i: usize)
    requires
        bound > 0,
    ensures
        i < bound,
{
    rand::rng().random_range(0..bound)
}

} // verus!
