//! The source of random draws.

use rand::Rng;
use vstd::prelude::*;

verus! {

/// A number drawn from `low` to `high`, both included: the result of
/// `rand::Rng::gen_range` on the range `low..=high`, called on the generator
/// that `rand::thread_rng` hands out.  Nothing is proved of it.  The
/// contract claims only that the draw lies in the range, which the sampling
/// of `rand` guarantees for integers.  `gen_range` panics on an empty range,
/// which the precondition leaves out; `thread_rng` panics where the system
/// cannot seed the generator, which no precondition can leave out.
#[verifier::external_body]
pub(crate) fn random_between(low: i64, high: i64) -> (r: i64)
    requires
        low <= high,
    ensures
        low <= r <= high,
{
    rand::thread_rng().gen_range(low..=high)
}

} // verus!
