//! The system clock.

use vstd::prelude::*;

verus! {

/// `std::time::SystemTime`, a point in time.
#[verifier::external_type_specification]
#[verifier::external_body]
pub struct ExSystemTime(std::time::SystemTime);

/// Calls `std::time::SystemTime::now`. Nothing is claimed of the result.
#[verifier::external_body]
fn now() -> std::time::SystemTime {
    std::time::SystemTime::now()
}

/// Calls `std::time::SystemTime::duration_since` with the start of 1970. There
/// is no result where the time lies before it; nothing else is claimed.
#[verifier::external_body]
fn since_epoch(t: std::time::SystemTime) -> Option<std::time::Duration> {
    t.duration_since(std::time::UNIX_EPOCH).ok()
}

/// Calls `std::time::Duration::as_secs`. Nothing is claimed of the result.
#[verifier::external_body]
fn whole_seconds(d: std::time::Duration) -> u64 {
    d.as_secs()
}

/// What reading the clock comes to: the whole seconds from the start of 1970 to
/// the point in time that the clock gave, and none where that lies before.
pub closed spec fn read_from_clock(r: Option<u64>) -> bool {
    exists|t: std::time::SystemTime, d: Option<std::time::Duration>|
        {
            &&& call_ensures(now, (), t)
            &&& #[trigger] call_ensures(since_epoch, (t,), d)
            &&& match d {
                Some(d) => r is Some && call_ensures(whole_seconds, (d,), r->0),
                None => r is None,
            }
        }
}

/// The current time in Unix seconds, where it is not before 1970.
pub fn unix_now() -> (r: Option<u64>)
    ensures
        read_from_clock(r),
{
    match since_epoch(now()) {
        Some(d) => Some(whole_seconds(d)),
        None => None,
    }
}

} // verus!
