//! Timestamps as text.
use vstd::prelude::*;
use crate::text::{i64_value, parse_i64};

verus! {

/// The instant that an RFC 3339 text names, in milliseconds since the epoch.
pub uninterp spec fn rfc3339_millis(s: Seq<char>) -> Option<i64>;

/// `chrono::DateTime::parse_from_rfc3339` and `timestamp_millis`: the instant that
/// the text names, or nothing where it is no RFC 3339 date and time.
#[verifier::external_body]
pub(crate) fn parse_rfc3339(s: &str) -> (r: Option<i64>)
    ensures
        r == rfc3339_millis(s@),
{
    chrono::DateTime::parse_from_rfc3339(s).ok().map(|dt| dt.timestamp_millis())
}

/// The whole seconds from one RFC 3339 instant to another, rounded toward zero.
pub uninterp spec fn rfc3339_seconds_between(first: Seq<char>, last: Seq<char>) -> Option<i64>;

/// `chrono`'s difference of two `DateTime`s in whole seconds, or nothing where
/// one of the texts is no RFC 3339 date and time.
#[verifier::external_body]
pub(crate) fn seconds_between(first: &str, last: &str) -> (r: Option<i64>)
    ensures
        r == rfc3339_seconds_between(first@, last@),
{
    let a = chrono::DateTime::parse_from_rfc3339(first).ok()?;
    let b = chrono::DateTime::parse_from_rfc3339(last).ok()?;
    Some((b - a).num_seconds())
}

/// The instant of a timestamp that is RFC 3339 text or a number of milliseconds.
pub open spec fn timestamp_millis(s: Seq<char>, rfc3339: Option<i64>) -> Option<i64> {
    match rfc3339 {
        Some(ms) => Some(ms),
        None => i64_value(s),
    }
}

/// The instant of the timestamp `ts`, given what it names as RFC 3339 text.
pub fn millis_or_number(ts: &str, rfc3339: Option<i64>) -> (r: Option<i64>)
    ensures
        r == timestamp_millis(ts@, rfc3339),
{
    match rfc3339 {
        Some(ms) => Some(ms),
        None => parse_i64(ts),
    }
}

/// The instant of a timestamp that is RFC 3339 text or a number of milliseconds.
pub fn parse_timestamp_to_millis(ts: &str) -> (r: Option<i64>)
    ensures
        r == timestamp_millis(ts@, rfc3339_millis(ts@)),
{
    millis_or_number(ts, parse_rfc3339(ts))
}

} // verus!
