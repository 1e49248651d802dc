//! The monotonic clock that times a session.

use std::time::{Duration, Instant};
use vstd::prelude::*;

verus! {

/// A reading of the standard library's monotonic clock. Nothing is known of
/// what a reading holds.
#[verifier::external_type_specification]
#[verifier::external_body]
pub struct ExInstant(Instant);

/// `Instant::now` of the standard library: the clock's reading at the moment of
/// the call. Nothing is claimed of the reading.
#[verifier::external_body]
pub(crate) fn now() -> Instant {
    Instant::now()
}

/// The time that the standard library measures from the reading `start` to
/// the reading `end`: no time at all where `end` is the earlier of the two.
pub uninterp spec fn time_between(start: Instant, end: Instant) -> Duration;

/// `Instant::saturating_duration_since` of the standard library: the time from
/// `start` to `end`. It depends on the two readings alone and is the one that
/// [`time_between`] names; nothing is claimed of its length.
#[verifier::external_body]
pub(crate) fn span(start: &Instant, end: &Instant) -> (r: Duration)
    ensures
        r == time_between(*start, *end),
{
    end.saturating_duration_since(*start)
}

} // verus!
