//! Wall-clock timestamps in milliseconds since the Unix epoch.
use std::time::{Duration, SystemTime, UNIX_EPOCH};
use vstd::prelude::*;

verus! {

#[verifier::external_type_specification]
#[verifier::external_body]
pub struct ExSystemTime(std::time::SystemTime);

/// `SystemTime::now`: the current wall-clock time. Nothing is stated of it.
#[verifier::external_body]
fn system_now() -> (t: SystemTime) {
    SystemTime::now()
}

/// `SystemTime::duration_since(UNIX_EPOCH)`: the time elapsed since the
/// epoch, or `None` for a clock set before it. Nothing is stated of which.
#[verifier::external_body]
fn since_epoch(t: &SystemTime) -> (elapsed: Option<Duration>) {
    t.duration_since(UNIX_EPOCH).ok()
}

/// `Duration::as_millis`: whole milliseconds of a duration. A `Duration` is
/// opaque here, so nothing is stated of the number.
#[verifier::external_body]
fn duration_millis(d: &Duration) -> (ms: u128) {
    d.as_millis()
}

/// The timestamp kept for a reading of the clock: zero before the epoch,
/// the milliseconds since it, saturated at `i64::MAX`.
pub open spec fn timestamp_of(elapsed_ms: Option<u128>) -> i64 {
    match elapsed_ms {
        None => 0,
        Some(ms) => if ms > i64::MAX as u128 {
            i64::MAX
        } else {
            ms as i64
        },
    }
}

/// Converts a clock reading to a timestamp (see `timestamp_of`).
pub fn timestamp_from_millis(elapsed_ms: Option<u128>) -> (t: i64)
    ensures
        t == timestamp_of(elapsed_ms),
        t >= 0,
{
    match elapsed_ms {
        None => 0,
        Some(ms) => if ms > i64::MAX as u128 {
            i64::MAX
        } else {
            ms as i64
        },
    }
}

/// The current time in milliseconds since the Unix epoch. The value comes
/// from the system clock; it is never negative.
pub fn now() -> (t: i64)
    ensures
        t >= 0,
{
    let time = system_now();
    let elapsed = match since_epoch(&time) {
        Some(d) => Some(duration_millis(&d)),
        None => None,
    };
    timestamp_from_millis(elapsed)
}

} // verus!
