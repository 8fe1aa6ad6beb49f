//! Wall-clock readings from `chrono`.

use vstd::prelude::*;

verus! {

/// Calls `chrono::Utc::now().timestamp()`: seconds since the Unix epoch.
/// Nothing is promised of the value: it is the time of the call.
#[verifier::external_body]
pub(crate) fn now_unix_seconds() -> (t: i64) {
    chrono::Utc::now().timestamp()
}

/// `t` is a value that reading the seconds clock can give.
pub closed spec fn seconds_clock_reading(t: i64) -> bool {
    call_ensures(now_unix_seconds, (), t)
}

/// Reads the seconds clock.
pub fn read_seconds_clock() -> (t: i64)
    ensures
        seconds_clock_reading(t),
{
    now_unix_seconds()
}

/// Calls `chrono::Utc::now().timestamp_millis()`: milliseconds since the
/// Unix epoch. Nothing is promised of the value: it is the time of the call.
#[verifier::external_body]
pub(crate) fn now_unix_millis() -> (t: i64) {
    chrono::Utc::now().timestamp_millis()
}

/// Calls `chrono::Utc::now().to_rfc3339()`: the current time as an
/// RFC 3339 timestamp. Nothing is promised of the text: it is the time of
/// the call.
#[verifier::external_body]
pub(crate) fn now_rfc3339() -> (t: String) {
    chrono::Utc::now().to_rfc3339()
}

} // verus!
