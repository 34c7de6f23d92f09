//! The one source of chance in the crate.

use rand::Rng;
use vstd::prelude::*;

verus! {

/// A number below `bound`, drawn from the thread-local generator of the
/// `rand` crate: the body is `rand::thread_rng().gen_range(0..bound)`.
///
/// The contract claims the range only, as the documentation of `gen_range`
/// does: nothing is said of which number comes, and two calls may differ.
/// `gen_range` panics on an empty range, so `bound` must be positive. The
/// generator is seeded by the operating system when a thread first uses it,
/// and `rand` panics there if the system gives no seed; no contract can rule
/// that out.
#[verifier::external_body]
pub(crate) fn random_below(bound: usize) -> (pick: usize)
    requires
        bound > 0,
    ensures
        pick < bound,
{
    rand::thread_rng().gen_range(0..bound)
}

} // verus!
