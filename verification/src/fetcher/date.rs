//! Publication dates of feed items, read through `chrono`.
use vstd::prelude::*;
use crate::text::{chars_of, lemma_trim_bounds, trim, trim_exec};

verus! {

/// An instant in UTC: seconds since the Unix epoch and the sub-second nanoseconds.
#[derive(Clone, Copy, PartialEq, Eq, Structural, Debug)]
pub struct FeedTime {
    pub secs: i64,
    pub nanos: u32,
}

/// `DateTime::parse_from_rfc2822(s)` as an instant, `None` on a parse error.
pub uninterp spec fn rfc2822_instant(s: Seq<char>) -> Option<FeedTime>;

/// `DateTime::parse_from_rfc3339(s)` as an instant, `None` on a parse error.
pub uninterp spec fn rfc3339_instant(s: Seq<char>) -> Option<FeedTime>;

/// `DateTime::parse_from_str(s, fmt)` as an instant, `None` on a parse error.
pub uninterp spec fn formatted_instant(s: Seq<char>, fmt: Seq<char>) -> Option<FeedTime>;

/// `chrono::DateTime::parse_from_rfc2822`, taken as its UTC timestamp.
#[verifier::external_body]
fn parse_rfc2822(s: &str) -> (r: Option<FeedTime>)
    ensures
        r == rfc2822_instant(s@),
{
    chrono::DateTime::parse_from_rfc2822(s).ok().map(
        |dt| FeedTime { secs: dt.timestamp(), nanos: dt.timestamp_subsec_nanos() },
    )
}

/// `chrono::DateTime::parse_from_rfc3339`, taken as its UTC timestamp.
#[verifier::external_body]
pub(crate) fn parse_rfc3339(s: &str) -> (r: Option<FeedTime>)
    ensures
        r == rfc3339_instant(s@),
{
    chrono::DateTime::parse_from_rfc3339(s).ok().map(
        |dt| FeedTime { secs: dt.timestamp(), nanos: dt.timestamp_subsec_nanos() },
    )
}

/// `chrono::DateTime::parse_from_str`, taken as its UTC timestamp.
#[verifier::external_body]
fn parse_formatted(s: &str, fmt: &str) -> (r: Option<FeedTime>)
    ensures
        r == formatted_instant(s@, fmt@),
{
    chrono::DateTime::parse_from_str(s, fmt).ok().map(
        |dt| FeedTime { secs: dt.timestamp(), nanos: dt.timestamp_subsec_nanos() },
    )
}

/// The date of a feed item: the trimmed text read as RFC 2822, else RFC 3339,
/// else one of four common layouts; `None` for empty or unreadable text.
pub open spec fn feed_date(s: Seq<char>) -> Option<FeedTime> {
    let t = trim(s);
    if t.len() == 0 {
        None
    } else if rfc2822_instant(t) is Some {
        rfc2822_instant(t)
    } else if rfc3339_instant(t) is Some {
        rfc3339_instant(t)
    } else if formatted_instant(t, "%a, %d %b %Y %H:%M:%S %z"@) is Some {
        formatted_instant(t, "%a, %d %b %Y %H:%M:%S %z"@)
    } else if formatted_instant(t, "%a, %d %b %Y %H:%M:%S %Z"@) is Some {
        formatted_instant(t, "%a, %d %b %Y %H:%M:%S %Z"@)
    } else if formatted_instant(t, "%Y-%m-%dT%H:%M:%S%:z"@) is Some {
        formatted_instant(t, "%Y-%m-%dT%H:%M:%S%:z"@)
    } else {
        formatted_instant(t, "%Y-%m-%dT%H:%M:%SZ"@)
    }
}

/// Reads the publication date of a feed item.
pub fn parse_date(s: &str) -> (r: Option<FeedTime>)
    ensures
        r == feed_date(s@),
{
    let v = chars_of(s);
    let t = trim_exec(v.as_slice());
    let t = t.as_str();
    proof {
        lemma_trim_bounds(s@);
    }
    if t.is_empty() {
        return None;
    }
    let a = parse_rfc2822(t);
    if a.is_some() {
        return a;
    }
    let b = parse_rfc3339(t);
    if b.is_some() {
        return b;
    }
    let c = parse_formatted(t, "%a, %d %b %Y %H:%M:%S %z");
    if c.is_some() {
        return c;
    }
    let d = parse_formatted(t, "%a, %d %b %Y %H:%M:%S %Z");
    if d.is_some() {
        return d;
    }
    let e = parse_formatted(t, "%Y-%m-%dT%H:%M:%S%:z");
    if e.is_some() {
        return e;
    }
    parse_formatted(t, "%Y-%m-%dT%H:%M:%SZ")
}

} // verus!
