//! From a fetch outcome to the row that is shown for a host.

use crate::clock::{days_between, days_until, text_of, utc_date, utc_date_text, SECONDS_PER_DAY};
use crate::outcome::{FetchOutcome, OutcomeView};
use vstd::prelude::*;

verus! {

/// A certificate with fewer days left than this is reported as expired,
/// although it may still be accepted by clients: the label is a warning.
pub const NEAR_EXPIRY_DAYS: i64 = 7;

/// The day count of a host whose certificate could not be read. No readable
/// certificate reaches it, so such hosts come last in ascending order.
pub const DAYS_LEFT_UNKNOWN: i64 = i64::MAX;

/// The label of a row.
#[derive(Clone, Copy, Debug, PartialEq, Eq, Structural)]
pub enum Status {
    Valid,
    Expired,
    Error,
}

impl Status {
    /// The word that stands for the label in a report.
    pub open spec fn label_text(self) -> Seq<char> {
        match self {
            Status::Valid => "VALID"@,
            Status::Expired => "EXPIRED"@,
            Status::Error => "ERROR"@,
        }
    }

    /// The word that stands for the label in a report.
    pub fn label(self) -> (word: &'static str)
        ensures
            word@ == self.label_text(),
    {
        match self {
            Status::Valid => "VALID",
            Status::Expired => "EXPIRED",
            Status::Error => "ERROR",
        }
    }
}

/// One host's row.
#[derive(Clone, Debug, PartialEq, Eq)]
pub struct SiteResult {
    pub domain: String,
    pub status: Status,
    pub expiry_display: String,
    pub days_left: i64,
}

/// The mathematical content of a [`SiteResult`].
pub struct SiteRow {
    pub domain: Seq<char>,
    pub status: Status,
    pub expiry_display: Seq<char>,
    pub days_left: int,
}

impl View for SiteResult {
    type V = SiteRow;

    open spec fn view(&self) -> SiteRow {
        SiteRow {
            domain: self.domain@,
            status: self.status,
            expiry_display: self.expiry_display@,
            days_left: self.days_left as int,
        }
    }
}

/// What is shown in place of a date when there is none.
pub open spec fn no_date() -> Seq<char> {
    "N/A"@
}

/// The label that goes with a day count of a certificate that was read.
pub open spec fn status_for(days_left: int) -> Status {
    if days_left < NEAR_EXPIRY_DAYS {
        Status::Expired
    } else {
        Status::Valid
    }
}

impl SiteRow {
    /// The rules that tie the fields of a row together: an error row carries
    /// the reserved day count and no date, and any other row is labelled by
    /// its day count, which stays below the reserved one.
    pub open spec fn well_formed(self) -> bool {
        if self.status is Error {
            self.days_left == DAYS_LEFT_UNKNOWN && self.expiry_display == no_date()
        } else {
            self.days_left < DAYS_LEFT_UNKNOWN && self.status == status_for(self.days_left)
        }
    }
}

/// The row for `domain`, given how its probe ended, the current instant and
/// the calendar date of the certificate's expiry where it has one.
///
/// A certificate that was read is labelled by the whole days it has left; one
/// that is still accepted but has fewer than [`NEAR_EXPIRY_DAYS`] left is
/// labelled expired on purpose. An expiry without a calendar date is counted
/// like any other and shown as [`no_date`].
pub open spec fn classified(
    domain: Seq<char>,
    outcome: OutcomeView,
    now: int,
    date: Option<Seq<char>>,
) -> SiteRow {
    match outcome {
        OutcomeView::Success { not_after } => {
            let days = days_between(not_after, now);
            let shown = match date {
                Some(text) => text,
                None => no_date(),
            };
            SiteRow { domain, status: status_for(days), expiry_display: shown, days_left: days }
        },
        _ => SiteRow {
            domain,
            status: Status::Error,
            expiry_display: no_date(),
            days_left: DAYS_LEFT_UNKNOWN as int,
        },
    }
}

/// Builds the row for `domain` from the outcome of its probe; `date` is the
/// rendered calendar date of the expiry, `None` where it has none. It is
/// read only for a `Success`.
pub fn classify_dated(
    domain: String,
    outcome: &FetchOutcome,
    now: i64,
    date: Option<String>,
) -> (row: SiteResult)
    ensures
        row@ == classified(domain@, outcome@, now as int, text_of(date)),
        row.domain == domain,
        row@.well_formed(),
{
    match outcome {
        FetchOutcome::Success { not_after } => {
            let shown: String = match date {
                Some(text) => text,
                None => "N/A".to_owned(),
            };
            let days: i64 = days_until(*not_after, now);
            let status = if days < NEAR_EXPIRY_DAYS {
                Status::Expired
            } else {
                Status::Valid
            };
            SiteResult { domain, status, expiry_display: shown, days_left: days }
        },
        _ => SiteResult {
            domain,
            status: Status::Error,
            expiry_display: "N/A".to_owned(),
            days_left: DAYS_LEFT_UNKNOWN,
        },
    }
}

/// The calendar date of the expiry that an outcome carries, where it carries
/// one and the date exists.
pub open spec fn expiry_date(outcome: OutcomeView) -> Option<Seq<char>> {
    match outcome {
        OutcomeView::Success { not_after } => utc_date_text(not_after),
        _ => None,
    }
}

/// Builds the row for `domain` from the outcome of its probe and the current
/// instant, both in seconds since the epoch.
pub fn classify(domain: String, outcome: &FetchOutcome, now: i64) -> (row: SiteResult)
    ensures
        row@ == classified(domain@, outcome@, now as int, expiry_date(outcome@)),
        row.domain == domain,
        row@.well_formed(),
{
    let date: Option<String> = match outcome {
        FetchOutcome::Success { not_after } => utc_date(*not_after),
        _ => None,
    };
    classify_dated(domain, outcome, now, date)
}

/// Classifying is a function of its inputs: two rows made for the same host
/// from the same outcome at the same instant are equal.
pub proof fn lemma_classify_is_deterministic(
    domain: Seq<char>,
    outcome: OutcomeView,
    now: int,
    first: SiteRow,
    second: SiteRow,
)
    requires
        first == classified(domain, outcome, now, expiry_date(outcome)),
        second == classified(domain, outcome, now, expiry_date(outcome)),
    ensures
        first == second,
{
}

/// The warning threshold is exclusive: a certificate that expires exactly
/// seven days from now is still valid, one that expires six days from now
/// is reported as expired.
pub proof fn lemma_threshold_is_exclusive(domain: Seq<char>, now: int, date: Option<Seq<char>>)
    ensures
        classified(
            domain,
            OutcomeView::Success { not_after: now + 7 * SECONDS_PER_DAY },
            now,
            date,
        ).status == Status::Valid,
        classified(
            domain,
            OutcomeView::Success { not_after: now + 6 * SECONDS_PER_DAY },
            now,
            date,
        ).status == Status::Expired,
{
}

/// A certificate that expired a second ago has no day left, and is reported
/// as expired.
pub proof fn lemma_just_expired(domain: Seq<char>, now: int, date: Option<Seq<char>>)
    ensures
        classified(domain, OutcomeView::Success { not_after: now - 1 }, now, date).days_left == -1,
        classified(domain, OutcomeView::Success { not_after: now - 1 }, now, date).status
            == Status::Expired,
{
}

} // verus!
