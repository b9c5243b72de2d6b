//! Whole-second instants and the day count between two of them.

use vstd::prelude::*;

verus! {

/// Seconds in one day.
pub const SECONDS_PER_DAY: i64 = 86_400;

/// Whole days from `now` until `not_after`, rounded towards minus infinity:
/// an instant that lies in the past by any amount is at least one day gone.
pub open spec fn days_between(not_after: int, now: int) -> int {
    (not_after - now) / (SECONDS_PER_DAY as int)
}

/// Computes [`days_between`] on instants given as seconds since the epoch.
pub fn days_until(not_after: i64, now: i64) -> (days: i64)
    ensures
        days == days_between(not_after as int, now as int),
{
    let span: i128 = not_after as i128 - now as i128;
    let day: i128 = SECONDS_PER_DAY as i128;
    if span >= 0 {
        (span / day) as i64
    } else {
        let back: i128 = -span;
        let whole: i128 = (back + (day - 1)) / day;
        (-whole) as i64
    }
}

/// The calendar date, in UTC, on which the instant `secs` seconds after the
/// epoch falls, written as year, month and day with hyphens between; `None`
/// for an instant that the calendar in use has no date for.
pub uninterp spec fn utc_date_text(secs: int) -> Option<Seq<char>>;

/// The text held by an optional string.
pub open spec fn text_of(text: Option<String>) -> Option<Seq<char>> {
    match text {
        Some(t) => Some(t@),
        None => None,
    }
}

/// Renders the UTC date of an instant with `chrono`: `DateTime::from_timestamp`
/// makes the date-time, which is `None` outside the years that `chrono`
/// covers, and `DateTime::format` with `%Y-%m-%d` writes it. Both depend on
/// `secs` alone, and that is all the contract claims: the outcome is the one
/// that [`utc_date_text`] names.
#[verifier::external_body]
pub(crate) fn utc_date(secs: i64) -> (date: Option<String>)
    ensures
        text_of(date) == utc_date_text(secs as int),
{
    let at = chrono::DateTime::from_timestamp(secs, 0)?;
    Some(at.format("%Y-%m-%d").to_string())
}

} // verus!
