//! How story times and the header clock read.
use vstd::prelude::*;
use crate::html::opt_view;
use crate::text::{digits, i64_text, int_text, push_str, to_uppercase, u64_text, uppercase};

verus! {

/// chrono's `DateTime::<Utc>::from_timestamp(ts, 0)` formatted as `%Y-%m-%d`
/// (`None` when chrono has no date for `ts`).
pub uninterp spec fn utc_date(ts: i64) -> Option<Seq<char>>;

/// chrono's `DateTime::<Utc>::from_timestamp(ts, 0)` formatted as
/// `%a %d %b %Y  %H:%M` (`None` when chrono has no date for `ts`).
pub uninterp spec fn utc_clock(ts: i64) -> Option<Seq<char>>;

/// `DateTime::<Utc>::from_timestamp(ts, 0)` and `format("%Y-%m-%d")`: the
/// named date text of `ts`.
#[verifier::external_body]
fn format_date(ts: i64) -> (r: Option<String>)
    ensures
        opt_view(r) == utc_date(ts),
{
    chrono::DateTime::<chrono::Utc>::from_timestamp(ts, 0).map(
        |dt| dt.format("%Y-%m-%d").to_string(),
    )
}

/// `DateTime::<Utc>::from_timestamp(ts, 0)` and `format("%a %d %b %Y  %H:%M")`:
/// the named clock text of `ts`.
#[verifier::external_body]
fn format_clock(ts: i64) -> (r: Option<String>)
    ensures
        opt_view(r) == utc_clock(ts),
{
    chrono::DateTime::<chrono::Utc>::from_timestamp(ts, 0).map(
        |dt| dt.format("%a %d %b %Y  %H:%M").to_string(),
    )
}

/// `now - ts`, saturated to the `i64` range.
pub open spec fn age(ts: i64, now: i64) -> int {
    let d = now - ts;
    if d > i64::MAX {
        i64::MAX as int
    } else if d < i64::MIN {
        i64::MIN as int
    } else {
        d
    }
}

/// A story's age: `now` under a minute, then whole minutes, hours or days
/// (`5m`, `3h`, `2d`) up to thirty days, then the UTC date, or the raw
/// timestamp when there is no date for it.
pub open spec fn relative_text(ts: i64, now: i64) -> Seq<char> {
    let d = age(ts, now);
    if d < 60 {
        "now"@
    } else if d < 3600 {
        digits((d / 60) as nat) + "m"@
    } else if d < 86400 {
        digits((d / 3600) as nat) + "h"@
    } else if d < 30 * 86400 {
        digits((d / 86400) as nat) + "d"@
    } else {
        match utc_date(ts) {
            Some(s) => s,
            None => int_text(ts as int),
        }
    }
}

/// How long ago `ts` was, as seen at `now`.
pub fn relative(ts: i64, now: i64) -> (r: String)
    ensures
        r@ == relative_text(ts, now),
        ts >= now ==> r@ == "now"@,
{
    let d: i128 = now as i128 - ts as i128;
    let delta: i64 = if d > i64::MAX as i128 {
        i64::MAX
    } else if d < i64::MIN as i128 {
        i64::MIN
    } else {
        d as i64
    };
    let minute: i64 = 60;
    let hour: i64 = 60 * minute;
    let day: i64 = 24 * hour;
    if delta < minute {
        let mut s = String::new();
        push_str(&mut s, "now");
        s
    } else if delta < hour {
        let mut s = u64_text((delta / minute) as u64);
        push_str(&mut s, "m");
        s
    } else if delta < day {
        let mut s = u64_text((delta / hour) as u64);
        push_str(&mut s, "h");
        s
    } else if delta < 30 * day {
        let mut s = u64_text((delta / day) as u64);
        push_str(&mut s, "d");
        s
    } else {
        match format_date(ts) {
            Some(s) => s,
            None => i64_text(ts),
        }
    }
}

/// The header clock for `now` (seconds since the epoch), upper-cased, e.g.
/// `WED 26 AUG 2026  14:32`; `None` when chrono has no date for `now`.
pub fn wire_clock(now: i64) -> (r: Option<String>)
    ensures
        match utc_clock(now) {
            Some(c) => r matches Some(s) && s@ == uppercase(c),
            None => r is None,
        },
{
    match format_clock(now) {
        Some(c) => Some(to_uppercase(c.as_str())),
        None => None,
    }
}

/// A story's age reads in the largest whole unit, up to thirty days: under
/// a minute `now`, then whole minutes (`5m`), hours (`3h`) and days (`2d`);
/// from thirty days on it reads as its UTC date (as its timestamp when there
/// is no date for it).
pub proof fn law_relative_buckets(ts: i64, now: i64)
    ensures
        now - ts < 60 ==> relative_text(ts, now) == "now"@,
        60 <= now - ts < 3600 ==> relative_text(ts, now) == digits(((now - ts) / 60) as nat)
            + "m"@,
        3600 <= now - ts < 86400 ==> relative_text(ts, now) == digits(((now - ts) / 3600) as nat)
            + "h"@,
        86400 <= now - ts < 2592000 ==> relative_text(ts, now) == digits(
            ((now - ts) / 86400) as nat,
        ) + "d"@,
        now - ts >= 2592000 ==> relative_text(ts, now) == match utc_date(ts) {
            Some(date) => date,
            None => int_text(ts as int),
        },
{
}

} // verus!
