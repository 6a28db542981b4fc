//! The system clock.
use vstd::prelude::*;

verus! {

/// `SystemTime::now().duration_since(UNIX_EPOCH)` from std, as whole seconds
/// (`Duration::as_secs`); nothing when the clock is before the epoch. The clock is read
/// afresh on every call, so nothing is promised of the value.
#[verifier::external_body]
fn seconds_since_epoch() -> (r: Option<u64>) {
    std::time::SystemTime::now().duration_since(std::time::UNIX_EPOCH).ok().map(|d| d.as_secs())
}

/// The Unix time a clock reading stands for: its seconds taken as an `i64` (as `as i64`
/// does), or 0 for a clock before the epoch.
pub open spec fn unix_seconds(reading: Option<u64>) -> i64 {
    match reading {
        Some(s) => s as i64,
        None => 0,
    }
}

/// The Unix time of a clock reading: its seconds taken as an `i64`, or 0 for a clock
/// before the epoch.
pub fn seconds_from_reading(reading: Option<u64>) -> (r: i64)
    ensures
        r == unix_seconds(reading),
{
    match reading {
        Some(s) => #[verifier::truncate] (s as i64),
        None => 0,
    }
}

/// The current Unix time in whole seconds: `seconds_from_reading` of the system clock.
pub fn unix_now() -> (r: i64)
    ensures
        exists|reading: Option<u64>| r == unix_seconds(reading),
{
    let reading = seconds_since_epoch();
    seconds_from_reading(reading)
}

} // verus!
