//! Monotonic time: instants and durations as numbers of nanoseconds.

use std::time::{Duration, Instant};
use vstd::prelude::*;

verus! {

/// `std::time::Instant`, a reading of the monotonic clock.
#[verifier::external_type_specification]
#[verifier::external_body]
pub struct ExInstant(std::time::Instant);

/// Where an instant lies on the line of the monotonic clock, in nanoseconds
/// from a fixed origin.
pub uninterp spec fn instant_nanos(instant: Instant) -> int;

/// The length of a duration in nanoseconds.
pub uninterp spec fn duration_nanos(duration: Duration) -> nat;

/// `Instant::now`: the clock is read, so nothing is known of the result.
pub assume_specification[ std::time::Instant::now ]() -> std::time::Instant
;

/// `Duration::as_nanos`: the whole duration in nanoseconds.
pub assume_specification[ core::time::Duration::as_nanos ](duration: &core::time::Duration) -> (r: u128)
    ensures
        r == duration_nanos(*duration),
;

/// `Instant::saturating_duration_since`: the time that passed from `earlier`
/// to the instant, or nothing when `earlier` is the later of the two.
pub assume_specification[ std::time::Instant::saturating_duration_since ](
    instant: &std::time::Instant,
    earlier: std::time::Instant,
) -> (r: std::time::Duration)
    ensures
        duration_nanos(r) == (if instant_nanos(*instant) >= instant_nanos(earlier) {
            instant_nanos(*instant) - instant_nanos(earlier)
        } else {
            0
        }),
;

/// The nanoseconds that passed from `earlier` to `now`, zero when `now` is the
/// earlier of the two.
pub open spec fn elapsed(now: Instant, earlier: Instant) -> int {
    if instant_nanos(now) >= instant_nanos(earlier) {
        instant_nanos(now) - instant_nanos(earlier)
    } else {
        0
    }
}

/// The nanoseconds that passed from `earlier` to `now`.
pub fn elapsed_nanos(now: Instant, earlier: Instant) -> (r: u128)
    ensures
        r == elapsed(now, earlier),
{
    now.saturating_duration_since(earlier).as_nanos()
}

} // verus!
