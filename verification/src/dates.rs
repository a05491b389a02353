//! Commit times as text, in UTC.

use crate::model::opt_view;
use vstd::prelude::*;
use vstd::string::*;

verus! {

/// What chrono writes for a number of seconds since the epoch, taken as a
/// time in UTC, under a pattern: `None` where chrono has no such time.
pub uninterp spec fn utc_text(seconds: i64, pattern: Seq<char>) -> Option<Seq<char>>;

/// The pattern of a date with the time of day.
pub open spec fn date_time_pattern() -> Seq<char> {
    "%Y-%m-%d %H:%M:%S"@
}

/// The pattern of a date alone.
pub open spec fn date_pattern() -> Seq<char> {
    "%Y-%m-%d"@
}

/// A commit time as `YYYY-MM-DD hh:mm:ss`; the epoch where chrono has no
/// such time.
pub open spec fn date_time_text(seconds: i64) -> Seq<char> {
    match utc_text(seconds, date_time_pattern()) {
        Some(t) => t,
        None => "1970-01-01 00:00:00"@,
    }
}

/// A commit time as `YYYY-MM-DD`; `Unknown` where chrono has no such time.
pub open spec fn date_text(seconds: i64) -> Seq<char> {
    match utc_text(seconds, date_pattern()) {
        Some(t) => t,
        None => "Unknown"@,
    }
}

/// `chrono::DateTime::from_timestamp` with no nanoseconds, then
/// `DateTime::format` under one of the two patterns: the text that chrono
/// writes, `None` where the seconds are out of chrono's range.
#[verifier::external_body]
pub(crate) fn format_utc(seconds: i64, pattern: &str) -> (r: Option<String>)
    requires
        pattern@ == date_time_pattern() || pattern@ == date_pattern(),
    ensures
        opt_view(r) == utc_text(seconds, pattern@),
{
    chrono::DateTime::from_timestamp(seconds, 0).map(|t| t.format(pattern).to_string())
}

/// A commit time as `YYYY-MM-DD hh:mm:ss`.
pub fn format_date_time(seconds: i64) -> (r: String)
    ensures
        r@ == date_time_text(seconds),
{
    match format_utc(seconds, "%Y-%m-%d %H:%M:%S") {
        Some(t) => t,
        None => String::from_str("1970-01-01 00:00:00"),
    }
}

/// A commit time as `YYYY-MM-DD`.
pub fn format_date(seconds: i64) -> (r: String)
    ensures
        r@ == date_text(seconds),
{
    match format_utc(seconds, "%Y-%m-%d") {
        Some(t) => t,
        None => String::from_str("Unknown"),
    }
}

} // verus!
