//! The time of day, in whole seconds since the start of 1970 (UTC).

use vstd::prelude::*;

verus! {

/// `chrono::Utc::now().timestamp()`: the reading of the system clock.
/// Nothing is claimed of it.
#[verifier::external_body]
fn clock_reading() -> (seconds: i64) {
    chrono::Utc::now().timestamp()
}

/// A clock reading as a count of seconds: readings before 1970 count as 0.
pub open spec fn as_seconds(reading: i64) -> u64 {
    if reading < 0 {
        0
    } else {
        reading as u64
    }
}

/// A clock reading as a count of seconds: readings before 1970 count as 0.
pub fn seconds_of(reading: i64) -> (seconds: u64)
    ensures
        seconds == as_seconds(reading),
{
    if reading < 0 {
        0
    } else {
        reading as u64
    }
}

/// The reading of the system clock, counted in seconds as `seconds_of` counts it.
pub fn now_seconds() -> (seconds: u64)
    ensures
        exists|reading: i64| seconds == #[trigger] as_seconds(reading),
        seconds <= latest_second(),
{
    let reading = clock_reading();
    let seconds = seconds_of(reading);
    assert(seconds == as_seconds(reading));
    seconds
}

/// The latest second that a clock reading can count as.
pub open spec fn latest_second() -> u64 {
    as_seconds(i64::MAX)
}

} // verus!
