//! The clock and the random draws that block production consults.

use chrono::Utc;
use rand::Rng;
use vstd::prelude::*;

verus! {

/// The number of equally likely outcomes of a stake draw. A draw `d` stands
/// for the fraction `d / DRAW_RANGE` of the unit interval.
pub const DRAW_RANGE: u64 = 10_000_000;

/// Reads the clock with `chrono::Utc::now` and returns its `timestamp`, the
/// seconds since the Unix epoch. Nothing is claimed of the value. The outside
/// function panics where the system clock stands before the epoch.
#[verifier::external_body]
pub(crate) fn current_timestamp() -> (now: i64) {
    Utc::now().timestamp()
}

/// Draws a number below `bound` with `rand::Rng::random_range` on the thread's
/// generator. Not proved: that the draw is below the bound. An empty range
/// makes the outside function panic, so the bound is positive.
#[verifier::external_body]
pub(crate) fn random_below(bound: u64) -> (draw: u64)
    requires
        bound > 0,
    ensures
        draw < bound,
{
    rand::rng().random_range(0..bound)
}

/// Flips a fair coin with `rand::Rng::random_ratio(1, 2)` on the thread's
/// generator. Nothing is claimed of the outcome.
#[verifier::external_body]
pub(crate) fn coin_flip() -> (heads: bool) {
    rand::rng().random_ratio(1, 2)
}

} // verus!
