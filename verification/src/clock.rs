//! The wall clock. Times are milliseconds since the Unix epoch.

use vstd::prelude::*;
use chrono::TimeZone;

verus! {

/// Whether `chrono` can hold the instant `millis` milliseconds after the
/// epoch: the name for `Utc.timestamp_millis_opt(millis)` yielding a single
/// date and time.
pub uninterp spec fn in_calendar(millis: i64) -> bool;

/// The current time, from `chrono::Utc::now` read back by
/// `DateTime::timestamp_millis`. Nothing is stated of it: it differs from
/// call to call.
#[verifier::external_body]
pub(crate) fn now_millis() -> (now: i64)
{
    chrono::Utc::now().timestamp_millis()
}

/// Whether `chrono::Utc.timestamp_millis_opt(millis)` yields a date and
/// time. Trusted: the answer depends on `millis` alone.
#[verifier::external_body]
pub(crate) fn is_in_calendar(millis: i64) -> (ok: bool)
    ensures
        ok == in_calendar(millis),
{
    chrono::Utc.timestamp_millis_opt(millis).single().is_some()
}

} // verus!
