//! Wall-clock helpers for the timestamps carried by the event stream.

use vstd::prelude::*;

verus! {

#[verifier::external_type_specification]
#[verifier::external_body]
pub struct ExSystemTime(std::time::SystemTime);

/// Milliseconds since the Unix epoch for a given instant, `None` for one
/// before the epoch. Relies on `SystemTime::duration_since` and
/// `Duration::as_millis`.
#[verifier::external_body]
pub fn system_time_millis(time: std::time::SystemTime) -> Option<i64> {
    match time.duration_since(std::time::UNIX_EPOCH) {
        Ok(d) => Some(d.as_millis() as i64),
        Err(_) => None,
    }
}

/// Milliseconds since the Unix epoch now, `0` when the clock reads before
/// the epoch. Relies on `SystemTime::now`; the result depends on the clock.
#[verifier::external_body]
pub fn now_millis() -> i64 {
    match std::time::SystemTime::now().duration_since(std::time::UNIX_EPOCH) {
        Ok(d) => d.as_millis() as i64,
        Err(_) => 0,
    }
}

} // verus!
