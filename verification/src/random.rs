//! The two draws that the game takes from the `rand` crate. Both use the
//! generator of the thread, which the crate seeds from the system; where the
//! system has no source of randomness the crate panics on its first use.

use vstd::prelude::*;
use rand::Rng;

verus! {

/// `rand::Rng::gen_range` on `rand::thread_rng()`, with the half-open range
/// `low..high`. The crate panics on an empty range, which `requires` leaves
/// out; of the value it promises only that it lies in the range.
#[verifier::external_body]
pub(crate) fn random_between(low: i32, high: i32) -> (out: i32)
    requires
        low < high,
    ensures
        low <= out < high,
{
    rand::thread_rng().gen_range(low..high)
}

/// `rand::Rng::gen_ratio` on `rand::thread_rng()`: true with a chance of
/// `numerator` in `denominator`. The crate panics on a zero denominator and
/// on a ratio above one; it documents the outcome only at the two ends.
#[verifier::external_body]
pub(crate) fn random_ratio(numerator: u32, denominator: u32) -> (out: bool)
    requires
        0 < denominator,
        numerator <= denominator,
    ensures
        numerator == denominator ==> out,
        numerator == 0 ==> !out,
{
    rand::thread_rng().gen_ratio(numerator, denominator)
}

} // verus!
