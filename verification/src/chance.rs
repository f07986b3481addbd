//! The one source of chance in the library: a number drawn at random.
use vstd::prelude::*;

verus! {

/// A number drawn at random below `bound`, with `rand::random_range` over
/// `0..bound`. Which number comes out is chance; only its range is stated.
#[verifier::external_body]
pub(crate) fn random_below(bound: u64) -> (r: u64)
    requires bound > 0,
    ensures r < bound,
{
    rand::random_range(0..bound)
}

} // verus!
