//! How long ago something happened, in the short form the pickers show.

use vstd::prelude::*;
use chrono::{DateTime, Utc};
use crate::text::{append_decimal, append_str, chars_to_string, decimal_chars};

verus! {

/// A point in time in UTC, as seconds and nanoseconds since the Unix epoch
/// (what `DateTime<Utc>` holds).
#[derive(Debug, Clone, Copy, PartialEq, Eq, Structural)]
pub struct Timestamp {
    pub secs: i64,
    pub nanos: u32,
}

/// A signed number in decimal.
pub open spec fn signed_decimal(n: int) -> Seq<char> {
    if n < 0 {
        seq!['-'] + decimal_chars((-n) as nat)
    } else {
        decimal_chars(n as nat)
    }
}

/// The age of something `secs` seconds old: seconds under a minute, then
/// whole minutes under an hour, whole hours under a day, whole days under
/// thirty days, then months of thirty days.
pub open spec fn elapsed_text(secs: int) -> Seq<char> {
    if secs < 60 {
        signed_decimal(secs) + "s ago"@
    } else if secs / 60 < 60 {
        decimal_chars((secs / 60) as nat) + "m ago"@
    } else if secs / 3600 < 24 {
        decimal_chars((secs / 3600) as nat) + "h ago"@
    } else if secs / 86400 < 30 {
        decimal_chars((secs / 86400) as nat) + "d ago"@
    } else {
        decimal_chars((secs / 86400 / 30) as nat) + "mo ago"@
    }
}

/// The age of something `seconds` old (see `elapsed_text`).
pub fn format_elapsed(seconds: i64) -> (res: String)
    ensures
        res@ == elapsed_text(seconds as int),
{
    let mut out: Vec<char> = Vec::new();
    if seconds < 60 {
        if seconds < 0 {
            out.push('-');
            let magnitude: u64 = (-(seconds + 1)) as u64 + 1;
            append_decimal(&mut out, magnitude);
        } else {
            append_decimal(&mut out, seconds as u64);
        }
        append_str(&mut out, "s ago");
    } else if seconds / 60 < 60 {
        append_decimal(&mut out, (seconds / 60) as u64);
        append_str(&mut out, "m ago");
    } else if seconds / 3600 < 24 {
        append_decimal(&mut out, (seconds / 3600) as u64);
        append_str(&mut out, "h ago");
    } else if seconds / 86400 < 30 {
        append_decimal(&mut out, (seconds / 86400) as u64);
        append_str(&mut out, "d ago");
    } else {
        append_decimal(&mut out, (seconds / 86400 / 30) as u64);
        append_str(&mut out, "mo ago");
    }
    chars_to_string(&out)
}

/// A nanosecond count chrono accepts with these seconds: under a second, or
/// under two seconds on the last second of a minute (a leap second).
pub open spec fn valid_nanos(secs: i64, nanos: u32) -> bool {
    nanos < 1_000_000_000 || (nanos < 2_000_000_000 && secs % 60 == 59)
}

/// Seconds since the epoch that fall in the years 1 to 9999 (UTC).
pub open spec fn common_era_years(secs: i64) -> bool {
    -62_135_596_800 <= secs <= 253_402_300_799
}

/// Whether chrono's `DateTime::from_timestamp` gives an instant for these
/// seconds and nanoseconds (it gives none for seconds out of its range or
/// an invalid nanosecond): a function of the two numbers alone.
pub uninterp spec fn utc_instant_exists(secs: i64, nanos: u32) -> bool;

/// Calls chrono's `DateTime::from_timestamp`, `Utc::now()`,
/// `DateTime::signed_duration_since` and `TimeDelta::num_seconds`: the whole
/// seconds from the timestamp to now, `None` when chrono cannot represent the
/// timestamp.
///
/// Trusted: whether a value comes back is `from_timestamp`'s decision (the
/// rest cannot fail); as its source shows, it gives nothing for a
/// nanosecond count of two seconds or more, or of one second or more
/// outside a minute's last second (a leap second), and it gives an instant
/// for any valid nanosecond count in the years 1 to 9999. The value itself,
/// which depends on the clock, is left unsaid. `Utc::now` panics when the
/// system clock reads before 1970: that is the machine's state, not an
/// argument, and is left out.
#[verifier::external_body]
fn seconds_since(secs: i64, nanos: u32) -> (r: Option<i64>)
    ensures
        r is Some <==> utc_instant_exists(secs, nanos),
        !valid_nanos(secs, nanos) ==> r is None,
        valid_nanos(secs, nanos) && common_era_years(secs) ==> r is Some,
{
    match DateTime::<Utc>::from_timestamp(secs, nanos) {
        Some(dt) => Some(Utc::now().signed_duration_since(dt).num_seconds()),
        None => None,
    }
}

/// Format a timestamp as a human-readable "time ago" string: the age
/// `elapsed_text` gives for the seconds from `ts` to now (read from the
/// clock); `None` for a timestamp out of chrono's range (never one taken
/// from a `DateTime`; see `utc_instant_exists`): always for an invalid
/// nanosecond count, never for a valid one in the years 1 to 9999.
pub fn format_time_ago(ts: Timestamp) -> (res: Option<String>)
    ensures
        res is Some <==> utc_instant_exists(ts.secs, ts.nanos),
        !valid_nanos(ts.secs, ts.nanos) ==> res is None,
        valid_nanos(ts.secs, ts.nanos) && common_era_years(ts.secs) ==> res is Some,
        res matches Some(t) ==> exists|secs: i64| t@ == elapsed_text(secs as int),
{
    match seconds_since(ts.secs, ts.nanos) {
        Some(seconds) => Some(format_elapsed(seconds)),
        None => None,
    }
}

/// The instant an RFC 3339 text names, in UTC seconds and nanoseconds since
/// the epoch; `None` when it is not such a text. What chrono's parser makes
/// of it.
pub uninterp spec fn rfc3339_instant(s: Seq<char>) -> Option<(i64, u32)>;

/// Calls chrono's `DateTime::parse_from_rfc3339`, then
/// `DateTime::with_timezone(&Utc)`, `timestamp` and `timestamp_subsec_nanos`.
///
/// Trusted: the result is the parser's, a function of the text alone; what
/// it is is left unsaid.
#[verifier::external_body]
fn parse_rfc3339(s: &str) -> (r: Option<Timestamp>)
    ensures
        match r {
            Some(t) => rfc3339_instant(s@) == Some((t.secs, t.nanos)),
            None => rfc3339_instant(s@) is None,
        },
{
    match DateTime::parse_from_rfc3339(s) {
        Ok(dt) => {
            let utc = dt.with_timezone(&Utc);
            Some(Timestamp { secs: utc.timestamp(), nanos: utc.timestamp_subsec_nanos() })
        },
        Err(_) => None,
    }
}

/// Calls chrono's `Utc::now()`: the clock's time.
///
/// Trusted for nothing about its value, which depends on the clock.
/// `Utc::now` panics when the system clock reads before 1970; that is the
/// machine's state, not an argument.
#[verifier::external_body]
pub(crate) fn now() -> (r: Timestamp) {
    let t = Utc::now();
    Timestamp { secs: t.timestamp(), nanos: t.timestamp_subsec_nanos() }
}

/// The instant an RFC 3339 text names (see `rfc3339_instant`), or the
/// current time when it names none.
pub fn instant_or_now(s: &str) -> (r: Timestamp)
    ensures
        rfc3339_instant(s@) matches Some((secs, nanos)) ==> r == (Timestamp { secs, nanos }),
{
    match parse_rfc3339(s) {
        Some(t) => t,
        None => now(),
    }
}

/// The pattern of the date in the system prompt: "YYYY-MM-DD HH:MM UTC".
pub open spec fn minute_pattern() -> Seq<char> {
    "%Y-%m-%d %H:%M UTC"@
}

/// A UTC instant written with a chrono format pattern; `None` when chrono
/// cannot represent the instant. What chrono's formatting gives.
pub uninterp spec fn utc_format_text(secs: i64, nanos: u32, pattern: Seq<char>) -> Option<Seq<char>>;

/// Calls chrono's `DateTime::from_timestamp`, then `format` with the
/// pattern and `to_string`.
///
/// Trusted: the result is chrono's, a function of the instant and the
/// pattern alone; what it is is left unsaid. Only `minute_pattern` is
/// admitted: chrono's `to_string` panics on a pattern it cannot read, and
/// that one it reads.
#[verifier::external_body]
pub(crate) fn utc_format(ts: Timestamp, pattern: &str) -> (r: Option<String>)
    requires
        pattern@ == minute_pattern(),
    ensures
        match r {
            Some(t) => utc_format_text(ts.secs, ts.nanos, pattern@) == Some(t@),
            None => utc_format_text(ts.secs, ts.nanos, pattern@) is None,
        },
{
    DateTime::<Utc>::from_timestamp(ts.secs, ts.nanos).map(|dt| dt.format(pattern).to_string())
}

/// An age reads as one whole number of its largest unit that fits: under a
/// minute the seconds themselves, then the minutes, hours, days or months
/// of thirty days that have fully passed (the number `q` of units with
/// `q` units at most the age and `q + 1` units more than it).
pub proof fn law_elapsed_units(secs: int)
    requires
        secs >= 0,
    ensures
        secs < 60 ==> elapsed_text(secs) == decimal_chars(secs as nat) + "s ago"@,
        60 <= secs < 3600 ==> exists|q: nat| #![auto] q * 60 <= secs < q * 60 + 60
            && elapsed_text(secs) == decimal_chars(q) + "m ago"@,
        3600 <= secs < 86400 ==> exists|q: nat| #![auto] q * 3600 <= secs < q * 3600 + 3600
            && elapsed_text(secs) == decimal_chars(q) + "h ago"@,
        86400 <= secs < 2592000 ==> exists|q: nat| #![auto] q * 86400 <= secs < q * 86400 + 86400
            && elapsed_text(secs) == decimal_chars(q) + "d ago"@,
        2592000 <= secs ==> exists|q: nat| #![auto] q * 2592000 <= secs < q * 2592000 + 2592000
            && elapsed_text(secs) == decimal_chars(q) + "mo ago"@,
{
    if 60 <= secs < 3600 {
        let q = (secs / 60) as nat;
        assert(q * 60 <= secs < q * 60 + 60);
        assert(secs / 60 < 60);
        assert(elapsed_text(secs) == decimal_chars(q) + "m ago"@);
        assert(q * 60 <= secs < q * 60 + 60 && elapsed_text(secs) == decimal_chars(q) + "m ago"@);
    } else if 3600 <= secs < 86400 {
        let q = (secs / 3600) as nat;
        assert(q * 3600 <= secs < q * 3600 + 3600);
        assert(secs / 60 >= 60);
        assert(secs / 3600 < 24);
        assert(elapsed_text(secs) == decimal_chars(q) + "h ago"@);
        assert(q * 3600 <= secs < q * 3600 + 3600 && elapsed_text(secs) == decimal_chars(q) + "h ago"@);
    } else if 86400 <= secs < 2592000 {
        let q = (secs / 86400) as nat;
        assert(q * 86400 <= secs < q * 86400 + 86400);
        assert(secs / 60 >= 60);
        assert(secs / 3600 >= 24);
        assert(secs / 86400 < 30);
        assert(elapsed_text(secs) == decimal_chars(q) + "d ago"@);
        assert(q * 86400 <= secs < q * 86400 + 86400 && elapsed_text(secs) == decimal_chars(q) + "d ago"@);
    } else if 2592000 <= secs {
        let d = secs / 86400;
        let q = (d / 30) as nat;
        assert(d * 86400 <= secs < d * 86400 + 86400);
        assert(q * 30 <= d < q * 30 + 30);
        assert(q * 2592000 <= secs < q * 2592000 + 2592000) by (nonlinear_arith)
            requires
                d * 86400 <= secs < d * 86400 + 86400,
                q * 30 <= d < q * 30 + 30,
        ;
        assert(secs / 60 >= 60);
        assert(secs / 3600 >= 24);
        assert(secs / 86400 >= 30);
        assert(elapsed_text(secs) == decimal_chars(q) + "mo ago"@);
        assert(q * 2592000 <= secs < q * 2592000 + 2592000 && elapsed_text(secs) == decimal_chars(q) + "mo ago"@);
    }
}

} // verus!
