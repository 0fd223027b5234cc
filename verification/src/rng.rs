//! The one place the library touches the random number generator.

use vstd::prelude::*;
use rand::Rng;

verus! {

/// Relies on rand::Rng::gen_range over rand::thread_rng: for a non-empty range
/// `lo..hi` it returns a uniformly sampled value of that range; it panics only
/// on an empty range, which the precondition rules out. Nothing more than the
/// bounds can be promised of a random draw.
#[verifier::external_body]
pub(crate) fn rand_range(lo: usize, hi: usize) -> (r: usize)
    requires
        lo < hi,
    ensures
        lo <= r < hi,
{
    rand::thread_rng().gen_range(lo..hi)
}

} // verus!
