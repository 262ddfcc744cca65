//! The wall clock, in milliseconds since the Unix epoch.

use chrono::Utc;
use vstd::prelude::*;

verus! {

/// The latest time that `chrono` represents, in milliseconds since the
/// epoch (the last millisecond of year 262142).
pub const LATEST_TIME_MS: i64 = 8210266876799999;

/// The earliest time that `chrono` represents, in milliseconds since the
/// epoch (the first millisecond of year -262143).
pub const EARLIEST_TIME_MS: i64 = -8334601315200000;

/// `Utc::now().timestamp_millis()`: the current time, which `Utc::now`
/// reads as a duration since the epoch (it panics on a clock set before
/// 1970), so it is not negative. Only that range is stated.
#[verifier::external_body]
pub(crate) fn now_millis() -> (t: i64)
    ensures
        0 <= t <= LATEST_TIME_MS,
{
    Utc::now().timestamp_millis()
}

} // verus!
