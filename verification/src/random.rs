//! Random numbers for the game: which brick falls next, which quote is shown.

use rand::Rng;
use vstd::prelude::*;

verus! {

/// Draws a number from `low..high` with `rand::thread_rng().gen_range`.
/// Claimed of the outside call: for a non-empty range it returns a value inside the range
/// (its documentation: "Panics if the range is empty"). Which value comes back is chance.
#[verifier::external_body]
pub(crate) fn random_in_range(low: i32, high: i32) -> (r: i32)
    requires
        low < high,
    ensures
        low <= r < high,
{
    rand::thread_rng().gen_range(low..high)
}

} // verus!
