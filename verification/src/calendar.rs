//! Calendar conversions of UTC instants, done by `chrono`.
use vstd::prelude::*;

use crate::time::{valid_instant, UtcTime, MAX_TIMESTAMP, MIN_TIMESTAMP};

verus! {

/// What `chrono::DateTime::parse_from_rfc3339` reads from `text`, as the
/// UTC timestamp and nanoseconds of the instant.
pub uninterp spec fn rfc3339_parse(text: Seq<char>) -> Option<(int, int)>;

/// What `chrono::DateTime::<Utc>::to_rfc3339_opts(SecondsFormat::AutoSi, true)`
/// prints for the instant.
pub uninterp spec fn rfc3339_text(secs: int, nanos: int) -> Seq<char>;

/// What `chrono::DateTime::<Utc>::format(pattern)` prints for the instant.
pub uninterp spec fn strftime_text(secs: int, nanos: int, pattern: Seq<char>) -> Seq<char>;

/// The day number (counted from 0001-01-01 as day 1) of the date that
/// `chrono::NaiveDate::parse_from_str(text, pattern)` reads.
pub uninterp spec fn date_parse_days(text: Seq<char>, pattern: Seq<char>) -> Option<int>;

/// Day number of 1970-01-01 counted from 0001-01-01 as day 1.
pub const UNIX_EPOCH_DAY: i64 = 719163;

/// Day numbers of the first and last date that `chrono::NaiveDate` holds.
pub const MIN_DAY: i64 = -95746129;

pub const MAX_DAY: i64 = 95745399;

/// The strftime patterns that this crate formats instants with.
pub open spec fn supported_pattern(p: Seq<char>) -> bool {
    ||| p == "%Y%m%d"@
    ||| p == "%H"@
    ||| p == "%Y%m%d-%H%M%SZ"@
    ||| p == "%Y%m%d%HZ"@
}

/// `chrono::DateTime::parse_from_rfc3339`, converted to UTC. The contract
/// claims that the result is the named parse of the text, and that a
/// parsed instant lies within what a `DateTime<Utc>` can hold.
#[verifier::external_body]
fn chrono_parse_rfc3339(text: &str) -> (r: Option<(i64, u32)>)
    ensures
        r matches Some(p) ==> rfc3339_parse(text@) == Some((p.0 as int, p.1 as int))
            && valid_instant(p.0 as int, p.1 as int),
        r is None ==> rfc3339_parse(text@) is None,
{
    match chrono::DateTime::parse_from_rfc3339(text) {
        Ok(dt) => Some((dt.timestamp(), dt.timestamp_subsec_nanos())),
        Err(_) => None,
    }
}

/// `chrono::DateTime::<Utc>::to_rfc3339_opts` with `SecondsFormat::AutoSi`
/// and a `Z` suffix. The contract claims the named text and nothing more.
#[verifier::external_body]
fn chrono_rfc3339(secs: i64, nanos: u32) -> (s: String)
    requires
        valid_instant(secs as int, nanos as int),
    ensures
        s@ == rfc3339_text(secs as int, nanos as int),
{
    match chrono::DateTime::from_timestamp(secs, nanos) {
        Some(dt) => dt.to_rfc3339_opts(chrono::SecondsFormat::AutoSi, true),
        None => String::new(),
    }
}

/// `chrono::DateTime::<Utc>::format(pattern).to_string()`, for the
/// patterns this crate uses (all valid, so the formatting cannot fail).
/// The contract claims the named text and nothing more.
#[verifier::external_body]
fn chrono_format(secs: i64, nanos: u32, pattern: &str) -> (s: String)
    requires
        valid_instant(secs as int, nanos as int),
        supported_pattern(pattern@),
    ensures
        s@ == strftime_text(secs as int, nanos as int, pattern@),
{
    match chrono::DateTime::from_timestamp(secs, nanos) {
        Some(dt) => dt.format(pattern).to_string(),
        None => String::new(),
    }
}

/// `chrono::NaiveDate::parse_from_str`, as a day number. The contract
/// claims the named result, and that a parsed date lies within the range of
/// `NaiveDate`.
#[verifier::external_body]
fn chrono_parse_date(text: &str, pattern: &str) -> (r: Option<i64>)
    ensures
        r matches Some(d) ==> date_parse_days(text@, pattern@) == Some(d as int) && MIN_DAY <= d
            <= MAX_DAY,
        r is None ==> date_parse_days(text@, pattern@) is None,
{
    match chrono::NaiveDate::parse_from_str(text, pattern) {
        Ok(date) => Some(chrono::Datelike::num_days_from_ce(&date) as i64),
        Err(_) => None,
    }
}

/// `chrono::Utc::now()`. The clock decides the value; the contract claims
/// only that it is not before the Unix epoch (where `Utc::now` would
/// panic), within range, and not a leap second (the system clock has none).
#[verifier::external_body]
fn chrono_now() -> (r: (i64, u32))
    ensures
        0 <= r.0 <= MAX_TIMESTAMP,
        r.1 < 1_000_000_000,
{
    let now = chrono::Utc::now();
    (now.timestamp(), now.timestamp_subsec_nanos())
}

/// The instant that an RFC 3339 text denotes, if it parses.
pub open spec fn parsed_instant(text: Seq<char>) -> Option<UtcTime> {
    match rfc3339_parse(text) {
        Some(p) => Some(UtcTime { secs: p.0 as i64, nanos: p.1 as u32 }),
        None => None,
    }
}

/// Reads an RFC 3339 date-time (any offset) as an instant in UTC.
pub fn parse_rfc3339(text: &str) -> (r: Option<UtcTime>)
    ensures
        r == parsed_instant(text@),
        r matches Some(t) ==> t.wf(),
{
    match chrono_parse_rfc3339(text) {
        Some(p) => Some(UtcTime { secs: p.0, nanos: p.1 }),
        None => None,
    }
}

/// The RFC 3339 text of `dt`, with `Z` for UTC and as many fractional
/// digits (0, 3, 6 or 9) as the nanoseconds need.
pub fn rfc3339(dt: UtcTime) -> (r: String)
    requires
        dt.wf(),
    ensures
        r@ == rfc3339_text(dt.secs as int, dt.nanos as int),
{
    chrono_rfc3339(dt.secs, dt.nanos)
}

/// `dt` printed with a strftime `pattern`.
pub fn format_instant(dt: UtcTime, pattern: &str) -> (r: String)
    requires
        dt.wf(),
        supported_pattern(pattern@),
    ensures
        r@ == strftime_text(dt.secs as int, dt.nanos as int, pattern@),
{
    chrono_format(dt.secs, dt.nanos, pattern)
}

/// Midnight UTC of the date that `text` holds in `pattern`.
pub open spec fn parsed_midnight(text: Seq<char>, pattern: Seq<char>) -> Option<UtcTime> {
    match date_parse_days(text, pattern) {
        Some(d) => Some(UtcTime { secs: ((d - UNIX_EPOCH_DAY) * 86400) as i64, nanos: 0 }),
        None => None,
    }
}

/// Reads a calendar date with a strftime `pattern` and returns its midnight in UTC.
pub fn parse_date_midnight(text: &str, pattern: &str) -> (r: Option<UtcTime>)
    ensures
        r == parsed_midnight(text@, pattern@),
        r matches Some(t) ==> t.wf() && t.secs % 86400 == 0,
{
    match chrono_parse_date(text, pattern) {
        Some(d) => {
            let secs = (d - UNIX_EPOCH_DAY) * 86400;
            assert(secs % 86400 == 0) by {
                vstd::arithmetic::div_mod::lemma_mod_multiples_basic((d - UNIX_EPOCH_DAY) as int, 86400);
            }
            assert(MIN_TIMESTAMP <= secs <= MAX_TIMESTAMP);
            Some(UtcTime { secs, nanos: 0 })
        },
        None => None,
    }
}

/// The current instant, read from the system clock.
pub fn now() -> (r: UtcTime)
    ensures
        r.wf(),
        r.secs >= 0,
        r.nanos < 1_000_000_000,
{
    let (secs, nanos) = chrono_now();
    UtcTime { secs, nanos }
}

} // verus!
