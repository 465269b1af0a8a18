//! The wall clock, read through chrono.  Nothing is assumed of the values:
//! the clock may jump between readings.
use vstd::prelude::*;

verus! {

/// Relies on chrono's `Utc::now` and `DateTime::timestamp`: the current
/// time as whole seconds since the Unix epoch.
#[verifier::external_body]
pub fn unix_timestamp() -> i64 {
    chrono::Utc::now().timestamp()
}

/// Relies on chrono's `Utc::now` and `DateTime::timestamp_millis`: the
/// current time as milliseconds since the Unix epoch.
#[verifier::external_body]
pub fn unix_millis() -> i64 {
    chrono::Utc::now().timestamp_millis()
}

/// The milliseconds elapsed between two clock readings, clamped to zero
/// when the clock jumped backwards and to `u64::MAX` on overflow.
pub fn elapsed_millis(started: i64, ended: i64) -> (r: u64)
    ensures
        r == spec_elapsed_millis(started as int, ended as int),
{
    let d: i128 = (ended as i128) - (started as i128);
    if d < 0 {
        0
    } else if d > u64::MAX as i128 {
        u64::MAX
    } else {
        d as u64
    }
}

/// The clamped difference of two clock readings.
pub open spec fn spec_elapsed_millis(started: int, ended: int) -> u64 {
    if ended - started < 0 {
        0
    } else if ended - started > u64::MAX {
        u64::MAX
    } else {
        (ended - started) as u64
    }
}

} // verus!
