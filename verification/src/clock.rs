//! The monotonic clock, as far as the library uses it: a point in time is
//! only carried along and compared by the operating system, never inspected.

use vstd::prelude::*;
use std::time::{Duration, Instant};

verus! {

#[verifier::external_type_specification]
#[verifier::external_body]
pub struct ExInstant(Instant);

/// `std::time::Instant::now`: the current reading of the monotonic clock.
/// Nothing is stated of the value, which depends on when it is called.
#[verifier::external_body]
pub(crate) fn instant_now() -> Instant {
    Instant::now()
}

/// `std::time::Instant::elapsed`: the time that has passed since `at`.
/// Nothing is stated of the value, which depends on when it is called.
#[verifier::external_body]
pub(crate) fn instant_elapsed(at: &Instant) -> Duration {
    at.elapsed()
}

/// `Instant::duration_since`: the time from `earlier` to `later` (zero when
/// `earlier` is later). Nothing is stated of the value, which the clock
/// readings decide.
#[verifier::external_body]
pub(crate) fn instant_duration_since(later: &Instant, earlier: &Instant) -> Duration {
    later.duration_since(*earlier)
}

/// `Duration::as_millis`, cut to 64 bits: the whole milliseconds of `d`.
/// Nothing is stated of the value: durations are not inspected by the
/// library.
#[verifier::external_body]
pub(crate) fn duration_millis(d: &Duration) -> u64 {
    d.as_millis() as u64
}

/// `Duration::as_nanos`: the whole nanoseconds of `d`. Nothing is stated
/// of the value: durations are not inspected by the library.
#[verifier::external_body]
pub(crate) fn duration_nanos(d: &Duration) -> u128 {
    d.as_nanos()
}

/// The whole milliseconds since `start`.
pub(crate) fn elapsed_millis(start: &Instant) -> u64 {
    duration_millis(&instant_elapsed(start))
}

/// `chrono::Utc::now().timestamp_millis()`: the current time in
/// milliseconds since the Unix epoch. Nothing is stated of the value, which
/// depends on when it is called.
#[verifier::external_body]
pub(crate) fn utc_now_millis() -> i64 {
    chrono::Utc::now().timestamp_millis()
}

/// The current time in milliseconds since the Unix epoch (zero before it),
/// as `SystemTime::now().duration_since(UNIX_EPOCH)` gives it. Nothing is
/// stated of the value, which depends on when it is called.
#[verifier::external_body]
pub(crate) fn unix_millis() -> u64 {
    std::time::SystemTime::now()
        .duration_since(std::time::UNIX_EPOCH)
        .unwrap_or_default()
        .as_millis() as u64
}

} // verus!
