//! Points in time.
use std::time::SystemTime;
use vstd::prelude::*;

verus! {

/// The nanoseconds from the Unix epoch to a point in time, negative before the epoch.
pub uninterp spec fn unix_nanos(time: SystemTime) -> int;

/// The most nanoseconds that a `Duration` holds: `u64::MAX` seconds and 999,999,999 nanoseconds.
pub const MAX_DURATION_NANOS: u128 = 18_446_744_073_709_551_615_999_999_999;

/// Calls `SystemTime::duration_since` with the Unix epoch: `Ok` with the distance for a point at
/// or after the epoch, `Err` with the distance for one before it.
///
/// Trusted: the distance is that of the point in time, and fits a `Duration`.
#[verifier::external_body]
fn distance_from_epoch(time: SystemTime) -> (distance: Result<u128, u128>)
    ensures
        distance matches Ok(nanos) ==> unix_nanos(time) == nanos && nanos <= MAX_DURATION_NANOS,
        distance matches Err(nanos) ==> unix_nanos(time) == -nanos && 0 < nanos
            <= MAX_DURATION_NANOS,
{
    match time.duration_since(SystemTime::UNIX_EPOCH) {
        Ok(after) => Ok(after.as_nanos()),
        Err(before) => Err(before.duration().as_nanos()),
    }
}

/// Calls `SystemTime::now`.
///
/// Trusted with nothing: any reading may come back.
#[verifier::external_body]
fn now() -> (time: SystemTime) {
    SystemTime::now()
}

/// Reads the clock. Nothing is known of a reading but that it is one.
pub fn read_clock() -> (time: SystemTime) {
    now()
}

/// `time` is a reading of the clock.
pub open spec fn is_reading(time: SystemTime) -> bool {
    call_ensures(read_clock, (), time)
}

/// Returns the nanoseconds from the Unix epoch to `time`.
pub fn nanos_since_epoch(time: SystemTime) -> (nanos: i128)
    ensures
        nanos == unix_nanos(time),
        -MAX_DURATION_NANOS <= nanos <= MAX_DURATION_NANOS,
{
    match distance_from_epoch(time) {
        Ok(nanos) => nanos as i128,
        Err(nanos) => -(nanos as i128),
    }
}

} // verus!
