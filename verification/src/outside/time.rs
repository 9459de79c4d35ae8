//! Points in time and durations of the standard library.

use std::time::{Duration, Instant};
use vstd::prelude::*;

verus! {

/// `std::time::Instant`, a point in time.
#[verifier::external_type_specification]
#[verifier::external_body]
pub struct ExInstant(std::time::Instant);

/// Where a point in time stands, in nanoseconds from a fixed one.
pub uninterp spec fn moment(instant: Instant) -> int;

/// How long a duration is, in nanoseconds.
pub uninterp spec fn nanos(duration: Duration) -> nat;

/// `Instant::now`: the present point in time, of which nothing is known.
#[verifier::external_body]
pub(crate) fn now() -> (result: Instant) {
    Instant::now()
}

/// `Instant::checked_add`: the point in time that lies a duration later, where
/// it can be represented. The point itself can be; which later ones can is up
/// to the machine.
#[verifier::external_body]
pub(crate) fn checked_add(instant: &Instant, duration: Duration) -> (result: Option<Instant>)
    ensures
        result matches Some(later) ==> moment(later) == moment(*instant) + nanos(duration),
        nanos(duration) == 0 ==> result is Some,
{
    instant.checked_add(duration)
}

/// `<Instant as PartialOrd>::lt`: whether one point in time lies before another.
#[verifier::external_body]
pub(crate) fn earlier(left: &Instant, right: &Instant) -> (result: bool)
    ensures
        result == (moment(*left) < moment(*right)),
{
    left < right
}

/// `Duration::from_secs`: a whole number of seconds.
#[verifier::external_body]
pub(crate) fn seconds(count: u64) -> (result: Duration)
    ensures
        nanos(result) == count * 1_000_000_000,
{
    Duration::from_secs(count)
}

} // verus!
