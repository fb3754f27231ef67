//! Dates: the instants that chrono parses from feed and database text, how
//! they compare, and how they are written back out.

use vstd::prelude::*;
use crate::text::{chars_of, law_trim_idempotent, opt_text, string_of, trim, trimmed};

verus! {

/// An instant in UTC, as chrono's `DateTime<Utc>` counts it: whole seconds
/// since 1970-01-01T00:00:00Z and the nanoseconds past them (more than
/// 999_999_999 only inside a leap second).
#[derive(Clone, Copy, Debug, PartialEq, Eq, Structural)]
pub struct Instant {
    pub secs: i64,
    pub nanos: u32,
}

impl Instant {
    /// The instant as the pair of integers that orders it.
    pub open spec fn pair(self) -> (i64, u32) {
        (self.secs, self.nanos)
    }
}

/// `a` is not later than `b`; chrono orders its instants this way.
pub open spec fn not_later(a: (i64, u32), b: (i64, u32)) -> bool {
    a.0 < b.0 || (a.0 == b.0 && a.1 <= b.1)
}

/// The seconds of chrono's earliest `DateTime<Utc>` (`MIN_UTC`,
/// January 1 of the year -262143, 00:00:00).
pub open spec fn chrono_min_secs() -> int {
    -8334601228800
}

/// The first second of the year 0 and the first second of the year 10000:
/// RFC 2822 writes only the instants between them.
pub open spec fn rfc2822_writable(t: Instant) -> bool {
    -62167219200 <= t.secs < 253402300800
}

/// The format in which the time of the last run is stored.
pub open spec fn db_time_format() -> Seq<char> {
    "%Y-%m-%d %H:%M:%S"@
}

/// The format of an ISO date and time without zone, read as UTC.
pub open spec fn iso_time_format() -> Seq<char> {
    "%Y-%m-%dT%H:%M:%S"@
}

/// The instant that `DateTime::parse_from_rfc3339` reads from `text`.
pub uninterp spec fn chrono_rfc3339(text: Seq<char>) -> Option<(i64, u32)>;

/// The instant that `DateTime::parse_from_rfc2822` reads from `text`.
pub uninterp spec fn chrono_rfc2822(text: Seq<char>) -> Option<(i64, u32)>;

/// The instant that `NaiveDateTime::parse_from_str(text, format)` reads,
/// taken as UTC.
pub uninterp spec fn chrono_naive(text: Seq<char>, format: Seq<char>) -> Option<(i64, u32)>;

/// The text of `DateTime::<Utc>::to_rfc2822` for the instant
/// `(secs, nanos)`, or `None` where chrono has no such instant.
pub uninterp spec fn chrono_rfc2822_text(secs: i64, nanos: u32) -> Option<Seq<char>>;

/// The text of `DateTime::<Utc>::format(format)` for the instant
/// `(secs, nanos)`, or `None` where chrono has no such instant.
pub uninterp spec fn chrono_format_text(secs: i64, nanos: u32, format: Seq<char>) -> Option<
    Seq<char>,
>;

/// The instant that `parse_date` finds in `s`: `s` trimmed, read as RFC 3339,
/// else as RFC 2822, else as `%Y-%m-%d %H:%M:%S` in UTC, else as
/// `%Y-%m-%dT%H:%M:%S` in UTC.
pub open spec fn parsed_date(s: Seq<char>) -> Option<(i64, u32)> {
    let t = trim(s);
    if chrono_rfc3339(t) is Some {
        chrono_rfc3339(t)
    } else if chrono_rfc2822(t) is Some {
        chrono_rfc2822(t)
    } else if chrono_naive(t, db_time_format()) is Some {
        chrono_naive(t, db_time_format())
    } else {
        chrono_naive(t, iso_time_format())
    }
}

/// The pair of an optional instant.
pub open spec fn opt_pair(o: Option<Instant>) -> Option<(i64, u32)> {
    match o {
        Some(t) => Some(t.pair()),
        None => None,
    }
}

// ---------------------------------------------------------------------------
// chrono
// ---------------------------------------------------------------------------

/// `DateTime::parse_from_rfc3339`, converted to UTC. Claims only that the
/// result is the named instant and that chrono has no instant before
/// `MIN_UTC`.
#[verifier::external_body]
fn read_rfc3339(text: &str) -> (r: Option<(i64, u32)>)
    ensures
        r == chrono_rfc3339(text@),
        r matches Some(p) ==> chrono_min_secs() <= p.0,
{
    match chrono::DateTime::parse_from_rfc3339(text) {
        Ok(dt) => Some((dt.timestamp(), dt.timestamp_subsec_nanos())),
        Err(_) => None,
    }
}

/// `DateTime::parse_from_rfc2822`, converted to UTC. Claims only that the
/// result is the named instant and that chrono has no instant before
/// `MIN_UTC`.
#[verifier::external_body]
fn read_rfc2822(text: &str) -> (r: Option<(i64, u32)>)
    ensures
        r == chrono_rfc2822(text@),
        r matches Some(p) ==> chrono_min_secs() <= p.0,
{
    match chrono::DateTime::parse_from_rfc2822(text) {
        Ok(dt) => Some((dt.timestamp(), dt.timestamp_subsec_nanos())),
        Err(_) => None,
    }
}

/// `NaiveDateTime::parse_from_str`, taken as UTC (`Utc.from_utc_datetime`).
/// Claims only that the result is the named instant and that chrono has no
/// instant before `MIN_UTC`.
#[verifier::external_body]
fn read_naive_utc(text: &str, format: &str) -> (r: Option<(i64, u32)>)
    ensures
        r == chrono_naive(text@, format@),
        r matches Some(p) ==> chrono_min_secs() <= p.0,
{
    match chrono::NaiveDateTime::parse_from_str(text, format) {
        Ok(ndt) => {
            let dt = chrono::TimeZone::from_utc_datetime(&chrono::Utc, &ndt);
            Some((dt.timestamp(), dt.timestamp_subsec_nanos()))
        },
        Err(_) => None,
    }
}

/// `DateTime::<Utc>::MIN_UTC`, the earliest instant chrono has; its value
/// is taken from chrono's source (`NaiveDateTime::MIN`).
#[verifier::external_body]
pub fn chrono_min_utc() -> (r: Instant)
    ensures
        r.secs == chrono_min_secs(),
        r.nanos == 0,
{
    let dt = chrono::DateTime::<chrono::Utc>::MIN_UTC;
    Instant { secs: dt.timestamp(), nanos: dt.timestamp_subsec_nanos() }
}

/// `DateTime::<Utc>::to_rfc2822` of the instant, built with
/// `DateTime::from_timestamp` (`None` where that has no instant). chrono
/// panics on years outside 0..=9999, which `requires` leaves out.
#[verifier::external_body]
fn write_rfc2822(t: Instant) -> (r: Option<String>)
    requires
        rfc2822_writable(t),
    ensures
        opt_text(r) == chrono_rfc2822_text(t.secs, t.nanos),
{
    match chrono::DateTime::from_timestamp(t.secs, t.nanos) {
        Some(dt) => Some(dt.to_rfc2822()),
        None => None,
    }
}

/// `DateTime::<Utc>::format(format).to_string()` of the instant, built with
/// `DateTime::from_timestamp` (`None` where that has no instant). Only the
/// storage format is admitted, for which chrono's formatting cannot fail.
#[verifier::external_body]
fn write_formatted(t: Instant, format: &str) -> (r: Option<String>)
    requires
        format@ == db_time_format(),
    ensures
        opt_text(r) == chrono_format_text(t.secs, t.nanos, format@),
{
    match chrono::DateTime::from_timestamp(t.secs, t.nanos) {
        Some(dt) => Some(dt.format(format).to_string()),
        None => None,
    }
}

// ---------------------------------------------------------------------------
// The bot's dates
// ---------------------------------------------------------------------------

/// Whether `a` is not later than `b`.
pub fn is_not_later(a: Instant, b: Instant) -> (r: bool)
    ensures
        r == not_later(a.pair(), b.pair()),
{
    a.secs < b.secs || (a.secs == b.secs && a.nanos <= b.nanos)
}

fn instant_from(p: Option<(i64, u32)>) -> (r: Option<Instant>)
    ensures
        opt_pair(r) == p,
{
    match p {
        Some((secs, nanos)) => Some(Instant { secs, nanos }),
        None => None,
    }
}

/// Reads a date the way the feed and the database write them: the text
/// trimmed, then tried as RFC 3339, as RFC 2822, as `%Y-%m-%d %H:%M:%S` and
/// as `%Y-%m-%dT%H:%M:%S` (the last two in UTC), the first that reads wins.
pub fn parse_date(s: &str) -> (r: Option<Instant>)
    ensures
        opt_pair(r) == parsed_date(s@),
        r matches Some(t) ==> chrono_min_secs() <= t.secs,
{
    let chars = chars_of(s);
    let t = string_of(&trimmed(&chars));
    let first = read_rfc3339(t.as_str());
    if first.is_some() {
        return instant_from(first);
    }
    let second = read_rfc2822(t.as_str());
    if second.is_some() {
        return instant_from(second);
    }
    let third = read_naive_utc(t.as_str(), "%Y-%m-%d %H:%M:%S");
    if third.is_some() {
        return instant_from(third);
    }
    instant_from(read_naive_utc(t.as_str(), "%Y-%m-%dT%H:%M:%S"))
}

/// The publication date of a feed item, read as `parse_date` reads it.
pub fn parse_rss_date(s: &str) -> (r: Option<Instant>)
    ensures
        opt_pair(r) == parsed_date(s@),
        r matches Some(t) ==> chrono_min_secs() <= t.secs,
{
    parse_date(s)
}

/// The RFC 2822 text of an instant, as a post shows it. `None` where the
/// instant is none of chrono's.
pub fn rfc2822_text(t: Instant) -> (r: Option<String>)
    requires
        rfc2822_writable(t),
    ensures
        opt_text(r) == chrono_rfc2822_text(t.secs, t.nanos),
{
    write_rfc2822(t)
}

/// The text under which the time of a run is stored: `%Y-%m-%d %H:%M:%S` in
/// UTC. `None` where the instant is none of chrono's.
pub fn db_time_text(t: Instant) -> (r: Option<String>)
    ensures
        opt_text(r) == chrono_format_text(t.secs, t.nanos, db_time_format()),
{
    write_formatted(t, "%Y-%m-%d %H:%M:%S")
}

// ---------------------------------------------------------------------------
// Laws
// ---------------------------------------------------------------------------

/// A date is read from the trimmed text in a fixed order of formats: RFC
/// 3339 first; RFC 2822 (its offset applied, as chrono reads it) where the
/// text is no RFC 3339 date; then `%Y-%m-%d %H:%M:%S` and
/// `%Y-%m-%dT%H:%M:%S` in UTC. Where none reads, there is no date.
pub proof fn law_parse_date_formats(s: Seq<char>)
    ensures
        chrono_rfc3339(trim(s)) is Some ==> parsed_date(s) == chrono_rfc3339(trim(s)),
        chrono_rfc3339(trim(s)) is None && chrono_rfc2822(trim(s)) is Some ==> parsed_date(s)
            == chrono_rfc2822(trim(s)),
        chrono_rfc3339(trim(s)) is None && chrono_rfc2822(trim(s)) is None && chrono_naive(
            trim(s),
            "%Y-%m-%d %H:%M:%S"@,
        ) is Some ==> parsed_date(s) == chrono_naive(trim(s), "%Y-%m-%d %H:%M:%S"@),
        chrono_rfc3339(trim(s)) is None && chrono_rfc2822(trim(s)) is None && chrono_naive(
            trim(s),
            "%Y-%m-%d %H:%M:%S"@,
        ) is None ==> parsed_date(s) == chrono_naive(trim(s), "%Y-%m-%dT%H:%M:%S"@),
{
}

/// White space around a date does not change what is read.
pub proof fn law_parse_date_ignores_surrounding_space(s: Seq<char>)
    ensures
        parsed_date(trim(s)) == parsed_date(s),
{
    law_trim_idempotent(s);
}

} // verus!
