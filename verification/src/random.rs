//! The source of chance.

use vstd::prelude::*;

verus! {

/// Draws a number below `bound` from the generator of the current thread, by
/// `rand::random_range` on the range from zero up to, and without, `bound`.
/// Of the number drawn nothing is claimed but that it lies in that range;
/// the range must not be empty, as `rand` panics on an empty one.
#[verifier::external_body]
pub(crate) fn random_below(bound: u32) -> (r: u32)
    requires
        bound > 0,
    ensures
        r < bound,
{
    rand::random_range(0..bound)
}

} // verus!
