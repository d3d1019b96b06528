//! Calendar renderings of Unix timestamps, through `chrono`.

use vstd::prelude::*;
use vstd::string::StringExecFns;

verus! {

/// The first second of the year 0 (`0000-01-01T00:00:00Z`).
pub const YEAR_0_FIRST_SECOND: i64 = -62167219200i64;

/// The last second of the year 9999 (`9999-12-31T23:59:59Z`).
pub const YEAR_9999_LAST_SECOND: i64 = 253402300799i64;

/// The first second chrono can represent (`-262143-01-01T00:00:00Z`).
pub const FIRST_UTC_SECOND: i64 = -8334601228800i64;

/// The last second chrono can represent (`+262142-12-31T23:59:59Z`).
pub const LAST_UTC_SECOND: i64 = 8210266876799i64;

/// Whether chrono can represent the instant `secs` seconds after the epoch:
/// `DateTime::from_timestamp(secs, 0)` gives `None` exactly outside the dates
/// from January 1 of the year -262143 to December 31 of the year 262142.
pub open spec fn in_utc_range(secs: i64) -> bool {
    FIRST_UTC_SECOND <= secs <= LAST_UTC_SECOND
}

/// Calls `chrono::DateTime::from_timestamp(secs, 0)` and takes `timestamp` of
/// the instant: `None` outside chrono's range of dates, and inside it the
/// instant reads back as the same seconds.
#[verifier::external_body]
pub(crate) fn utc_instant(secs: i64) -> (res: Option<i64>)
    ensures
        res == if in_utc_range(secs) {
            Some(secs)
        } else {
            None::<i64>
        },
{
    chrono::DateTime::from_timestamp(secs, 0).map(|instant| instant.timestamp())
}

/// Calls `DateTime::<Utc>::default()` and takes its `timestamp`: chrono's
/// default instant is the Unix epoch (`NaiveDateTime::default` is
/// `UNIX_EPOCH`).
#[verifier::external_body]
pub(crate) fn default_instant() -> (res: i64)
    ensures
        res == 0,
{
    chrono::DateTime::<chrono::Utc>::default().timestamp()
}

/// What `DateTime::from_timestamp(ts, 0)` followed by `to_rfc3339` gives:
/// `None` where the timestamp is out of chrono's range.
pub uninterp spec fn rfc3339_text(ts: i64) -> Option<Seq<char>>;

/// What `DateTime::from_timestamp(ts, 0)` followed by `to_rfc2822` gives.
pub uninterp spec fn rfc2822_text(ts: i64) -> Seq<char>;

/// What `DateTime::from_timestamp(ts, 0)` followed by `format("%B %d, %Y")`
/// gives ("July 21, 2026"): `None` where the timestamp is out of chrono's range.
pub uninterp spec fn long_date_text(ts: i64) -> Option<Seq<char>>;

/// What `DateTime::parse_from_rfc3339(s)` followed by `timestamp` gives: the
/// Unix seconds of the instant, or the text of the parse error.
pub uninterp spec fn rfc3339_parse(s: Seq<char>) -> Result<i64, Seq<char>>;

/// Calls `chrono::DateTime::from_timestamp(ts, 0)` and `to_rfc3339` on the
/// result ("2026-07-21T00:00:00+00:00"); the text itself is left to the name
/// `rfc3339_text`. `from_timestamp` fails exactly outside chrono's range of
/// dates, and `to_rfc3339` writes any date of it.
#[verifier::external_body]
pub(crate) fn rfc3339(ts: i64) -> (res: Option<String>)
    ensures
        match res {
            Some(s) => rfc3339_text(ts) == Some(s@),
            None => rfc3339_text(ts) is None,
        },
        res is Some <==> in_utc_range(ts),
{
    chrono::DateTime::from_timestamp(ts, 0).map(|date| date.to_rfc3339())
}

/// Whether an RFC 2822 date can be written for `ts`: chrono writes the
/// years 0 to 9999 and panics on the other years it represents; a timestamp
/// it cannot represent at all gets no date.
pub open spec fn rfc2822_writable(ts: i64) -> bool {
    !in_utc_range(ts) || (YEAR_0_FIRST_SECOND <= ts <= YEAR_9999_LAST_SECOND)
}

/// The RFC 2822 date of `ts`, empty where chrono cannot represent it.
pub open spec fn rfc2822_date(ts: i64) -> Seq<char> {
    if in_utc_range(ts) {
        rfc2822_text(ts)
    } else {
        Seq::empty()
    }
}

/// Calls `chrono::DateTime::from_timestamp(ts, 0)` and `to_rfc2822` on the
/// result ("Tue, 21 Jul 2026 00:00:00 +0000"), or gives the empty text when
/// there is no instant. `to_rfc2822` panics outside the years 0 to 9999, so
/// a timestamp chrono represents must fall within them; the text itself is
/// left to the name `rfc2822_text`.
#[verifier::external_body]
pub(crate) fn rfc2822(ts: i64) -> (res: String)
    requires
        rfc2822_writable(ts),
    ensures
        in_utc_range(ts) ==> res@ == rfc2822_text(ts),
        !in_utc_range(ts) ==> res@ == Seq::<char>::empty(),
{
    chrono::DateTime::from_timestamp(ts, 0).map(|date| date.to_rfc2822()).unwrap_or_default()
}

/// Whether an RFC 2822 date can be written for `ts` (see `rfc2822_writable`).
pub fn can_write_rfc2822(ts: i64) -> (res: bool)
    ensures
        res == rfc2822_writable(ts),
{
    !(FIRST_UTC_SECOND <= ts && ts <= LAST_UTC_SECOND) || (YEAR_0_FIRST_SECOND <= ts && ts
        <= YEAR_9999_LAST_SECOND)
}

/// Calls `chrono::DateTime::from_timestamp(ts, 0)` and formats the result with
/// `"%B %d, %Y"`; the text itself is left to the name `long_date_text`.
/// `from_timestamp` fails exactly outside chrono's range of dates, and the
/// format writes any date of it.
#[verifier::external_body]
fn long_date(ts: i64) -> (res: Option<String>)
    ensures
        match res {
            Some(s) => long_date_text(ts) == Some(s@),
            None => long_date_text(ts) is None,
        },
        res is Some <==> in_utc_range(ts),
{
    chrono::DateTime::from_timestamp(ts, 0).map(|date| date.format("%B %d, %Y").to_string())
}

/// Calls `chrono::DateTime::parse_from_rfc3339(s)` and takes the `timestamp`
/// of the result; a parse error is converted to its display text. Both are
/// left to the name `rfc3339_parse`.
#[verifier::external_body]
pub(crate) fn parse_rfc3339_seconds(s: &str) -> (res: Result<i64, String>)
    ensures
        match res {
            Ok(t) => rfc3339_parse(s@) == Ok::<i64, Seq<char>>(t),
            Err(e) => rfc3339_parse(s@) == Err::<i64, Seq<char>>(e@),
        },
{
    match chrono::DateTime::parse_from_rfc3339(s) {
        Ok(date) => Ok(date.timestamp()),
        Err(e) => Err(e.to_string()),
    }
}

/// The date shown for a post: its publication date written out, or the
/// draft status name when it has none (or chrono cannot render it).
pub open spec fn published_date_text(published_at: Option<i64>) -> Seq<char> {
    match published_at {
        Some(ts) => match long_date_text(ts) {
            Some(text) => text,
            None => "draft"@,
        },
        None => "draft"@,
    }
}

/// The date shown for a post, from its rendered publication date if any.
pub fn date_or_draft(rendered: Option<String>) -> (res: String)
    ensures
        res@ == match rendered {
            Some(text) => text@,
            None => "draft"@,
        },
{
    match rendered {
        Some(text) => text,
        None => String::from_str("draft"),
    }
}

/// The date shown for a post: "July 21, 2026", or "draft" when unpublished.
pub fn published_date(published_at: Option<i64>) -> (res: String)
    ensures
        res@ == published_date_text(published_at),
{
    match published_at {
        Some(ts) => date_or_draft(long_date(ts)),
        None => date_or_draft(None),
    }
}


/// The RFC 3339 text of an optional timestamp (the `datetime` of a post's
/// `<time>` element): none without a timestamp or outside chrono's range.
pub fn optional_rfc3339(ts: Option<i64>) -> (res: Option<String>)
    ensures
        res is Some <==> (ts matches Some(t) && in_utc_range(t)),
        match ts {
            Some(t) => match res {
                Some(s) => rfc3339_text(t) == Some(s@),
                None => rfc3339_text(t) is None,
            },
            None => res is None,
        },
{
    match ts {
        Some(t) => rfc3339(t),
        None => None,
    }
}

} // verus!
