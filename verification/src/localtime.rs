//! The local time zone: from a wall-clock reading to a point in time, and
//! from text to a wall-clock reading.
//!
//! The calendar and the zone rules are chrono's. What this module believes
//! of chrono is stated in the contracts of `read_naive_datetime`,
//! `read_naive_date`, `write_naive_datetime`, `local_candidates`,
//! `local_time_at` and `local_now`; the rest is proved.

use crate::timestamp::LocalTimestamp;
use chrono::{DateTime, Local, LocalResult, NaiveDate, NaiveDateTime, NaiveTime, TimeZone};
use vstd::prelude::*;
use vstd::string::StringExecFns;

verus! {

/// What the local time zone makes of one wall-clock reading.
#[derive(Clone, Copy, Debug, PartialEq, Eq, Structural)]
pub enum LocalResolution {
    /// The reading occurs once.
    Unique(LocalTimestamp),
    /// The reading occurs twice, because the clock was turned back over it.
    Fold(LocalTimestamp, LocalTimestamp),
    /// The reading does not occur, because the clock was turned forward
    /// over it, or the zone could not tell.
    Gap,
}

impl LocalResolution {
    /// Every candidate shows the wall-clock reading `civil`.
    pub open spec fn reads(self, civil: int) -> bool {
        match self {
            LocalResolution::Unique(t) => t.civil() == civil,
            LocalResolution::Fold(a, b) => a.civil() == civil && b.civil() == civil,
            LocalResolution::Gap => true,
        }
    }

    /// The candidate to use where a reading that occurs twice stands for
    /// its earlier occurrence.
    pub open spec fn earliest(self) -> Option<LocalTimestamp> {
        match self {
            LocalResolution::Unique(t) => Some(t),
            LocalResolution::Fold(a, b) => if a.instant <= b.instant {
                Some(a)
            } else {
                Some(b)
            },
            LocalResolution::Gap => None,
        }
    }

    /// The candidate, where there is exactly one.
    pub open spec fn unique(self) -> Option<LocalTimestamp> {
        match self {
            LocalResolution::Unique(t) => Some(t),
            _ => None,
        }
    }

    /// The earlier of the candidates, if there is any.
    pub fn earliest_candidate(&self) -> (t: Option<LocalTimestamp>)
        ensures
            t == self.earliest(),
    {
        match self {
            LocalResolution::Unique(t) => Some(*t),
            LocalResolution::Fold(a, b) => if a.instant <= b.instant {
                Some(*a)
            } else {
                Some(*b)
            },
            LocalResolution::Gap => None,
        }
    }

    /// The candidate, where there is exactly one.
    pub fn single(&self) -> (t: Option<LocalTimestamp>)
        ensures
            t == self.unique(),
    {
        match self {
            LocalResolution::Unique(t) => Some(*t),
            _ => None,
        }
    }
}

/// What chrono reads from `text` under the format `%Y-%m-%d %H:%M:%S`: the
/// wall-clock reading in seconds since 1970-01-01 00:00:00, or chrono's
/// words for why the text is no date and time. A leap second counts as the
/// second before it.
pub uninterp spec fn naive_seconds(text: Seq<char>) -> Result<i64, Seq<char>>;

/// What chrono reads from `text` under the format `%Y-%m-%d`: 00:00:00 of
/// that day in seconds since 1970-01-01 00:00:00, or chrono's words for why
/// the text is no date.
pub uninterp spec fn naive_midnight_seconds(text: Seq<char>) -> Result<i64, Seq<char>>;

/// What chrono writes for the wall-clock reading `civil` under the format
/// `%Y-%m-%d %H:%M:%S`, for a reading within the years that chrono knows.
pub uninterp spec fn naive_text(civil: i64) -> Option<Seq<char>>;

/// `chrono::NaiveDateTime::parse_from_str` with the format
/// `%Y-%m-%d %H:%M:%S`. The result is a function of the text alone; it is
/// named `naive_seconds` and nothing more is claimed of it.
#[verifier::external_body]
pub(crate) fn read_naive_datetime(text: &str) -> (civil: Result<i64, String>)
    ensures
        match civil {
            Ok(c) => naive_seconds(text@) == Ok::<i64, Seq<char>>(c),
            Err(e) => naive_seconds(text@) == Err::<i64, Seq<char>>(e@),
        },
{
    match NaiveDateTime::parse_from_str(text, "%Y-%m-%d %H:%M:%S") {
        Ok(naive) => Ok(naive.and_utc().timestamp()),
        Err(e) => Err(e.to_string()),
    }
}

/// `chrono::NaiveDate::parse_from_str` with the format `%Y-%m-%d`, taken at
/// 00:00:00 of the day. The result is a function of the text alone; it is
/// named `naive_midnight_seconds` and nothing more is claimed of it.
#[verifier::external_body]
pub(crate) fn read_naive_date(text: &str) -> (civil: Result<i64, String>)
    ensures
        match civil {
            Ok(c) => naive_midnight_seconds(text@) == Ok::<i64, Seq<char>>(c),
            Err(e) => naive_midnight_seconds(text@) == Err::<i64, Seq<char>>(e@),
        },
{
    match NaiveDate::parse_from_str(text, "%Y-%m-%d") {
        Ok(date) => Ok(date.and_time(NaiveTime::MIN).and_utc().timestamp()),
        Err(e) => Err(e.to_string()),
    }
}

/// `chrono::TimeZone::from_local_datetime` on `chrono::Local`. Which
/// candidates come back depends on the zone that the machine is set to, so
/// only this is claimed: each candidate's instant and offset add up to the
/// wall-clock reading that was asked for. A reading outside the years that
/// chrono knows comes back as a gap.
#[verifier::external_body]
pub(crate) fn local_candidates(civil: i64) -> (r: LocalResolution)
    ensures
        r.reads(civil as int),
{
    let Some(utc) = DateTime::from_timestamp(civil, 0) else {
        return LocalResolution::Gap;
    };
    match Local.from_local_datetime(&utc.naive_utc()) {
        LocalResult::Single(t) => LocalResolution::Unique(
            LocalTimestamp { instant: t.timestamp(), offset: t.offset().local_minus_utc() },
        ),
        LocalResult::Ambiguous(a, b) => LocalResolution::Fold(
            LocalTimestamp { instant: a.timestamp(), offset: a.offset().local_minus_utc() },
            LocalTimestamp { instant: b.timestamp(), offset: b.offset().local_minus_utc() },
        ),
        LocalResult::None => LocalResolution::Gap,
    }
}

/// `chrono::NaiveDateTime::format` with the format `%Y-%m-%d %H:%M:%S`.
/// The text is a function of the reading alone; it is named `naive_text`
/// and nothing more is claimed of it.
#[verifier::external_body]
pub(crate) fn write_naive_datetime(civil: i64) -> (text: Option<String>)
    ensures
        match text {
            Some(t) => naive_text(civil) == Some(t@),
            None => naive_text(civil) is None,
        },
{
    match DateTime::from_timestamp(civil, 0) {
        Some(utc) => Some(utc.naive_utc().format("%Y-%m-%d %H:%M:%S").to_string()),
        None => None,
    }
}

/// `chrono::DateTime::with_timezone` with `chrono::Local`, on the point in
/// time `instant` seconds after 1970-01-01 00:00:00 UTC. Which offset the
/// local zone has then depends on the zone that the machine is set to, so
/// only this is claimed: the timestamp is that point in time. There is
/// none for a point in time outside the years that chrono knows.
#[verifier::external_body]
pub(crate) fn local_time_at(instant: i64) -> (t: Option<LocalTimestamp>)
    ensures
        t matches Some(at) ==> at.instant == instant,
{
    match DateTime::from_timestamp(instant, 0) {
        Some(utc) => {
            let local = utc.with_timezone(&Local);
            Some(LocalTimestamp { instant: local.timestamp(), offset: local.offset().local_minus_utc() })
        },
        None => None,
    }
}

/// `chrono::Local::now`: the current time on the local clock. Nothing is
/// claimed of it.
#[verifier::external_body]
pub(crate) fn local_now() -> (t: LocalTimestamp) {
    let now = Local::now();
    LocalTimestamp { instant: now.timestamp(), offset: now.offset().local_minus_utc() }
}

/// A result whose error text is taken by its characters.
pub open spec fn outcome_view(out: Result<LocalTimestamp, String>) -> Result<
    LocalTimestamp,
    Seq<char>,
> {
    match out {
        Ok(t) => Ok(t),
        Err(e) => Err(e@),
    }
}

/// The timestamp that `text` stands for once the zone has answered `r` for
/// its wall-clock reading: the only candidate, or the earlier of two, or
/// an error that names the text.
pub open spec fn datetime_outcome(text: Seq<char>, r: LocalResolution) -> Result<
    LocalTimestamp,
    Seq<char>,
> {
    match r.earliest() {
        Some(t) => Ok(t),
        None => Err("Time '"@ + text + "' is invalid in this timezone"@),
    }
}

/// The day that `text` stands for once the zone has answered `r` for its
/// 00:00:00: the only candidate, or the earlier of two, or an error that
/// names the text.
pub open spec fn day_outcome(text: Seq<char>, r: LocalResolution) -> Result<
    LocalTimestamp,
    Seq<char>,
> {
    match r.earliest() {
        Some(t) => Ok(t),
        None => Err("Date is invalid in local timezone '"@ + text + "'"@),
    }
}

/// Picks the timestamp for the date and time `text` from what the zone
/// answered.
pub fn resolve_datetime(text: &str, r: &LocalResolution) -> (out: Result<LocalTimestamp, String>)
    ensures
        outcome_view(out) == datetime_outcome(text@, *r),
{
    match r.earliest_candidate() {
        Some(t) => Ok(t),
        None => {
            let mut message = String::from_str("Time '");
            message.append(text);
            message.append("' is invalid in this timezone");
            Err(message)
        },
    }
}

/// Picks the timestamp for the day `text` from what the zone answered.
pub fn resolve_day(text: &str, r: &LocalResolution) -> (out: Result<LocalTimestamp, String>)
    ensures
        outcome_view(out) == day_outcome(text@, *r),
{
    match r.earliest_candidate() {
        Some(t) => Ok(t),
        None => {
            let mut message = String::from_str("Date is invalid in local timezone '");
            message.append(text);
            message.append("'");
            Err(message)
        },
    }
}

/// Reads a date and time written as `YYYY-MM-DD HH:MM:SS` on the local
/// clock.
///
/// Text that is no date and time gives an error with the reason. Otherwise
/// the local zone decides: a reading that occurs once, or the earlier
/// occurrence of one that occurs twice, is returned and shows the reading
/// that was written; a reading that the local clock skips is an error.
pub fn parse_datetime_local(s: &str) -> (out: Result<LocalTimestamp, String>)
    ensures
        match naive_seconds(s@) {
            Err(why) => outcome_view(out) == Err::<LocalTimestamp, Seq<char>>(
                "Failed to resolve: "@ + why,
            ),
            Ok(civil) => exists|r: LocalResolution|
                r.reads(civil as int) && outcome_view(out) == #[trigger] datetime_outcome(s@, r),
        },
{
    match read_naive_datetime(s) {
        Err(why) => {
            let mut message = String::from_str("Failed to resolve: ");
            message.append(why.as_str());
            Err(message)
        },
        Ok(civil) => {
            let r = local_candidates(civil);
            resolve_datetime(s, &r)
        },
    }
}

/// Reads a day written as `YYYY-MM-DD` and returns its 00:00:00 on the
/// local clock.
///
/// Text that is no date gives an error with the text and the reason.
/// Otherwise the local zone decides, as for a date and time.
pub fn parse_datetime_local_day(s: &str) -> (out: Result<LocalTimestamp, String>)
    ensures
        match naive_midnight_seconds(s@) {
            Err(why) => outcome_view(out) == Err::<LocalTimestamp, Seq<char>>(
                "Cannot resolve '"@ + s@ + "': "@ + why,
            ),
            Ok(civil) => exists|r: LocalResolution|
                r.reads(civil as int) && outcome_view(out) == #[trigger] day_outcome(s@, r),
        },
{
    match read_naive_date(s) {
        Err(why) => {
            let mut message = String::from_str("Cannot resolve '");
            message.append(s);
            message.append("': ");
            message.append(why.as_str());
            Err(message)
        },
        Ok(civil) => {
            let r = local_candidates(civil);
            resolve_day(s, &r)
        },
    }
}

} // verus!
