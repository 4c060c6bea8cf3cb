use vstd::prelude::*;
use crate::record::{Record, RecordView, Timestamp, not_after};

verus! {

/// Whether a record with timestamp `t` lies in the window bounded below by
/// `since` and above by `until`, both inclusive and both optional. A record
/// without a timestamp always lies in it.
pub open spec fn admits(t: Option<Timestamp>, since: Option<Timestamp>, until: Option<Timestamp>) -> bool {
    match t {
        None => true,
        Some(t) => {
            &&& (since matches Some(s) ==> not_after(s, t))
            &&& (until matches Some(u) ==> not_after(t, u))
        },
    }
}

/// The time-window filter.
pub fn within_window(entry: &Record, since: &Option<Timestamp>, until: &Option<Timestamp>) -> (r: bool)
    ensures
        r == admits(entry@.time, *since, *until),
{
    if let Some(t) = &entry.time {
        if let Some(s) = since {
            if !s.is_not_after(t) {
                return false;
            }
        }
        if let Some(u) = until {
            if !t.is_not_after(u) {
                return false;
            }
        }
    }
    true
}

/// A record without a timestamp passes the filter whatever the bounds.
pub proof fn lemma_untimed_always_passes(e: RecordView, since: Option<Timestamp>, until: Option<Timestamp>)
    requires
        e.time is None,
    ensures
        admits(e.time, since, until),
{
}

/// A timestamped record passes when no bound is set, and when both bounds
/// equal its own timestamp; it fails a lower bound one second later.
pub proof fn lemma_bounds_inclusive(t: Timestamp)
    ensures
        admits(Some(t), None, None),
        admits(Some(t), Some(t), Some(t)),
        t.secs < i64::MAX ==> !admits(Some(t), Some(Timestamp { secs: (t.secs + 1) as i64, ..t }), None),
{
}

/// The layout of a time bound: `YYYY-MM-DD HH:MM`, read as UTC.
pub const BOUND_LAYOUT: &'static str = "%Y-%m-%d %H:%M";

/// The instant, as seconds since the epoch and sub-second nanoseconds, that
/// chrono reads from `text` under the strftime layout `fmt` taken as a UTC
/// date and time without offset; nothing where the text does not fit.
pub uninterp spec fn naive_utc_instant(text: Seq<char>, fmt: Seq<char>) -> Option<(i64, u32)>;

/// Relies on `chrono::NaiveDateTime::parse_from_str`, with `and_utc`,
/// `timestamp` and `timestamp_subsec_nanos` to read the result out.
#[verifier::external_body]
fn parse_naive_utc(text: &str, fmt: &str) -> (r: Option<(i64, u32)>)
    ensures
        r == naive_utc_instant(text@, fmt@),
{
    chrono::NaiveDateTime::parse_from_str(text, fmt).ok().map(|d| {
        let t = d.and_utc();
        (t.timestamp(), t.timestamp_subsec_nanos())
    })
}

/// The bound that a time-bound text gives, or none where it does not fit
/// the layout: an unreadable bound is left unset.
pub open spec fn bound_of(text: Seq<char>) -> Option<Timestamp> {
    match naive_utc_instant(text, BOUND_LAYOUT@) {
        Some((secs, nanos)) => Some(Timestamp { secs, nanos, offset: 0 }),
        None => None,
    }
}

/// Reads a time bound in the layout `YYYY-MM-DD HH:MM`, as UTC.
pub fn parse_bound(text: &str) -> (r: Option<Timestamp>)
    ensures
        r == bound_of(text@),
{
    match parse_naive_utc(text, BOUND_LAYOUT) {
        Some((secs, nanos)) => Some(Timestamp { secs, nanos, offset: 0 }),
        None => None,
    }
}

/// An optional bound text read as a bound; an absent or unreadable one
/// leaves that side of the window open.
pub fn bound_from(text: &Option<String>) -> (r: Option<Timestamp>)
    ensures
        r == match *text {
            Some(t) => bound_of(t@),
            None => None,
        },
{
    match text {
        Some(t) => parse_bound(t.as_str()),
        None => None,
    }
}

} // verus!
