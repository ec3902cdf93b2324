//! Time accounting: how many seconds of logged work fall into a range of
//! time, a range of calendar days, or one calendar day.

use crate::interval::{
    calculate_overlap, checked_seconds, lemma_total_overlap_nonnegative, total_overlap,
    WorkInterval,
};
use crate::localtime::{local_candidates, local_time_at, LocalResolution};
use crate::logfile::{
    answers_fit, localized, log_records, parse_log_entries, CivilInterval, ZoneAnswer,
};
use crate::timestamp::{LocalTimestamp, SECONDS_PER_DAY};
use vstd::prelude::*;

verus! {

/// Why a query has no answer.
#[derive(Clone, Copy, Debug, PartialEq, Eq, Structural)]
pub enum AccountingError {
    /// The range ends before it starts.
    InvalidRange,
    /// The first or the last second of a queried day does not occur exactly
    /// once on the local clock.
    UnresolvedDay,
    /// The total is more seconds than an `i64` holds.
    Overflow,
}

/// One question to the accounting engine.
#[derive(Clone, Copy, Debug, PartialEq, Eq, Structural)]
pub enum AccountingQuery {
    /// The work between two points in time.
    Precise(LocalTimestamp, LocalTimestamp),
    /// The work from 00:00:00 of the first day to 23:59:59 of the last.
    DayRange(LocalTimestamp, LocalTimestamp),
    /// The work from 00:00:00 to 23:59:59 of one day.
    SingleDay(LocalTimestamp),
}

/// The seconds that `entries` share with `[from, to]`, as an answer.
pub open spec fn overlap_outcome(entries: Seq<WorkInterval>, from: int, to: int) -> Result<
    i64,
    AccountingError,
> {
    match checked_seconds(total_overlap(entries, from, to)) {
        Some(total) => Ok(total),
        None => Err(AccountingError::Overflow),
    }
}

/// The answer for the range from `start` to `end`: an error for a range
/// that ends before it starts, nothing for a range that ends where it
/// starts, and the overlap with the entries otherwise.
pub open spec fn precise_outcome(
    entries: Seq<WorkInterval>,
    start: LocalTimestamp,
    end: LocalTimestamp,
) -> Result<i64, AccountingError> {
    if end.instant < start.instant {
        Err(AccountingError::InvalidRange)
    } else if end.instant == start.instant {
        Ok(0)
    } else {
        overlap_outcome(entries, start.instant as int, end.instant as int)
    }
}

/// The answer for one day whose 00:00:00 the zone answered with `first`
/// and whose 23:59:59 it answered with `last`: the overlap of the entries
/// with the day, if both occur exactly once.
pub open spec fn single_day_outcome(
    entries: Seq<WorkInterval>,
    first: LocalResolution,
    last: LocalResolution,
) -> Result<i64, AccountingError> {
    match (first.unique(), last.unique()) {
        (Some(from), Some(to)) => overlap_outcome(entries, from.instant as int, to.instant as int),
        _ => Err(AccountingError::UnresolvedDay),
    }
}

/// The answer for the days from `start_day` to `end_day`, where the zone
/// answered 00:00:00 of the first day with `first` and 23:59:59 of the
/// last day with `last`. The days are compared as calendar days. A range
/// of one day is that single day; a longer one is the range from `first`
/// to `last`.
pub open spec fn day_range_outcome(
    entries: Seq<WorkInterval>,
    start_day: LocalTimestamp,
    end_day: LocalTimestamp,
    first: LocalResolution,
    last: LocalResolution,
) -> Result<i64, AccountingError> {
    if end_day.day() < start_day.day() {
        Err(AccountingError::InvalidRange)
    } else if end_day.day() == start_day.day() {
        single_day_outcome(entries, first, last)
    } else {
        match (first.unique(), last.unique()) {
            (Some(from), Some(to)) => precise_outcome(entries, from, to),
            _ => Err(AccountingError::UnresolvedDay),
        }
    }
}

/// Total overlap of `entries` with `[from, to]`.
pub fn overlap_total(entries: &Vec<WorkInterval>, from: LocalTimestamp, to: LocalTimestamp) -> (r:
    Result<i64, AccountingError>)
    ensures
        r == overlap_outcome(entries@, from.instant as int, to.instant as int),
        r matches Ok(seconds) ==> seconds >= 0,
{
    proof {
        lemma_total_overlap_nonnegative(entries@, from.instant as int, to.instant as int);
    }
    match calculate_overlap(entries, from, to) {
        Some(total) => Ok(total),
        None => Err(AccountingError::Overflow),
    }
}

/// Seconds of work in `entries` between `start` and `end`.
pub fn precise_work_time(entries: &Vec<WorkInterval>, start: LocalTimestamp, end: LocalTimestamp) -> (r:
    Result<i64, AccountingError>)
    ensures
        r == precise_outcome(entries@, start, end),
        r matches Ok(seconds) ==> seconds >= 0,
{
    if end.instant < start.instant {
        Err(AccountingError::InvalidRange)
    } else if end.instant == start.instant {
        Ok(0)
    } else {
        overlap_total(entries, start, end)
    }
}

/// Seconds of work in `entries` on the day that runs from `first` to
/// `last`.
pub fn single_day_total(
    entries: &Vec<WorkInterval>,
    first: &LocalResolution,
    last: &LocalResolution,
) -> (r: Result<i64, AccountingError>)
    ensures
        r == single_day_outcome(entries@, *first, *last),
        r matches Ok(seconds) ==> seconds >= 0,
{
    match (first.single(), last.single()) {
        (Some(from), Some(to)) => overlap_total(entries, from, to),
        _ => Err(AccountingError::UnresolvedDay),
    }
}

/// Seconds of work in `entries` on the days from `start_day` to `end_day`,
/// where `first` is the zone's answer for 00:00:00 of the first day and
/// `last` its answer for 23:59:59 of the last.
pub fn day_range_total(
    entries: &Vec<WorkInterval>,
    start_day: LocalTimestamp,
    end_day: LocalTimestamp,
    first: &LocalResolution,
    last: &LocalResolution,
) -> (r: Result<i64, AccountingError>)
    ensures
        r == day_range_outcome(entries@, start_day, end_day, *first, *last),
        r matches Ok(seconds) ==> seconds >= 0,
{
    let from_day = start_day.calendar_day();
    let to_day = end_day.calendar_day();
    if to_day < from_day {
        Err(AccountingError::InvalidRange)
    } else if to_day == from_day {
        single_day_total(entries, first, last)
    } else {
        match (first.single(), last.single()) {
            (Some(from), Some(to)) => precise_work_time(entries, from, to),
            _ => Err(AccountingError::UnresolvedDay),
        }
    }
}

/// The wall-clock reading `civil`, in seconds since 1970-01-01 00:00:00 on
/// the local clock, is one that the local zone can be asked for: an `i64`
/// holds it.
pub open spec fn can_be_asked(civil: int) -> bool {
    i64::MIN <= civil <= i64::MAX
}

/// Asks the local zone for the wall-clock reading `civil`.
///
/// A reading that no `i64` holds does not occur: the answer is a gap, and
/// the zone is not asked. For every other reading the zone decides, and
/// whatever it answers, each candidate shows that reading.
pub fn day_bound(civil: i128) -> (r: LocalResolution)
    ensures
        r.reads(civil as int),
        !can_be_asked(civil as int) ==> r == LocalResolution::Gap,
{
    if civil < i64::MIN as i128 || civil > i64::MAX as i128 {
        LocalResolution::Gap
    } else {
        local_candidates(civil as i64)
    }
}

/// The zone's answer for 00:00:00 of the calendar day of `day`.
///
/// Where no `i64` holds that reading, the answer is a gap. Otherwise the
/// zone decides, and each candidate shows 00:00:00 of that day.
pub fn first_second_of(day: LocalTimestamp) -> (r: LocalResolution)
    ensures
        r.reads(day.day_start()),
        !can_be_asked(day.day_start()) ==> r == LocalResolution::Gap,
{
    let d: i128 = day.calendar_day() as i128;
    day_bound(d * SECONDS_PER_DAY as i128)
}

/// The zone's answer for 23:59:59 of the calendar day of `day`.
///
/// Where no `i64` holds that reading, the answer is a gap. Otherwise the
/// zone decides, and each candidate shows 23:59:59 of that day.
pub fn last_second_of(day: LocalTimestamp) -> (r: LocalResolution)
    ensures
        r.reads(day.day_end()),
        !can_be_asked(day.day_end()) ==> r == LocalResolution::Gap,
{
    let d: i128 = day.calendar_day() as i128;
    day_bound(d * SECONDS_PER_DAY as i128 + (SECONDS_PER_DAY as i128 - 1))
}

/// `r` is an answer to the query for the range from `start` to `end`
/// against `log`: the answer for those intervals that the records of the
/// log stand for under some answers of the local zone.
pub open spec fn is_precise_answer(
    log: Seq<char>,
    start: LocalTimestamp,
    end: LocalTimestamp,
    r: Result<i64, AccountingError>,
) -> bool {
    exists|answers: Seq<ZoneAnswer>|
        answers_fit(log_records(log), answers) && r == precise_outcome(
            #[trigger] localized(answers),
            start,
            end,
        )
}

/// `r` is an answer to the query for the calendar day of `day` against
/// `log`, under some answers of the local zone for the records of the log
/// and for the first and the last second of the day.
pub open spec fn is_single_day_answer(
    log: Seq<char>,
    day: LocalTimestamp,
    r: Result<i64, AccountingError>,
) -> bool {
    exists|answers: Seq<ZoneAnswer>, first: LocalResolution, last: LocalResolution|
        answers_fit(log_records(log), answers) && first.reads(day.day_start()) && last.reads(
            day.day_end(),
        ) && r == #[trigger] single_day_outcome(localized(answers), first, last)
}

/// `r` is an answer to the query for the days from `start_day` to
/// `end_day` against `log`, under some answers of the local zone for the
/// records of the log, for the first second of the first day and for the
/// last second of the last day.
pub open spec fn is_day_range_answer(
    log: Seq<char>,
    start_day: LocalTimestamp,
    end_day: LocalTimestamp,
    r: Result<i64, AccountingError>,
) -> bool {
    exists|answers: Seq<ZoneAnswer>, first: LocalResolution, last: LocalResolution|
        answers_fit(log_records(log), answers) && first.reads(start_day.day_start()) && last.reads(
            end_day.day_end(),
        ) && r == #[trigger] day_range_outcome(
            localized(answers),
            start_day,
            end_day,
            first,
            last,
        )
}

/// Seconds of logged work between `start` and `end`.
///
/// A range that ends before it starts is an error, and a range that ends
/// where it starts holds no work, whatever the log says. Otherwise every
/// interval of the log counts with the seconds that it shares with the
/// range; intervals that overlap each other are each counted.
pub fn acc_work_time_precise(log: &str, start: LocalTimestamp, end: LocalTimestamp) -> (r: Result<
    i64,
    AccountingError,
>)
    ensures
        end.instant < start.instant ==> r == Err::<i64, AccountingError>(
            AccountingError::InvalidRange,
        ),
        end.instant == start.instant ==> r == Ok::<i64, AccountingError>(0),
        is_precise_answer(log@, start, end, r),
        r matches Ok(seconds) ==> seconds >= 0,
{
    if end.instant < start.instant {
        proof {
            lemma_answers_exist(log_records(log@));
            assert(precise_outcome(localized(no_answers(log_records(log@).len())), start, end)
                == Err::<i64, AccountingError>(AccountingError::InvalidRange));
        }
        Err(AccountingError::InvalidRange)
    } else if end.instant == start.instant {
        proof {
            lemma_answers_exist(log_records(log@));
            assert(precise_outcome(localized(no_answers(log_records(log@).len())), start, end)
                == Ok::<i64, AccountingError>(0));
        }
        Ok(0)
    } else {
        let entries = parse_log_entries(log);
        precise_work_time(&entries, start, end)
    }
}

/// Seconds of logged work on the calendar day of `day`, from its 00:00:00
/// to its 23:59:59 on the local clock.
///
/// An interval that runs past midnight counts up to 23:59:59 of the day;
/// what follows belongs to the next day. A day whose first or last second
/// does not occur exactly once on the local clock is an error.
pub fn single_day_work_time(log: &str, day: LocalTimestamp) -> (r: Result<i64, AccountingError>)
    ensures
        is_single_day_answer(log@, day, r),
        r matches Ok(seconds) ==> seconds >= 0,
{
    let first = first_second_of(day);
    let last = last_second_of(day);
    let entries = parse_log_entries(log);
    let r = single_day_total(&entries, &first, &last);
    proof {
        let answers = choose|answers: Seq<ZoneAnswer>|
            answers_fit(log_records(log@), answers) && entries@ == #[trigger] localized(answers);
        assert(r == single_day_outcome(localized(answers), first, last));
    }
    r
}

/// Seconds of logged work from 00:00:00 of the calendar day of `start_day`
/// to 23:59:59 of the calendar day of `end_day`.
///
/// A last day before the first day is an error. One and the same day is
/// answered as that single day. A day bound that does not occur exactly
/// once on the local clock is an error.
pub fn acc_work_time(log: &str, start_day: LocalTimestamp, end_day: LocalTimestamp) -> (r: Result<
    i64,
    AccountingError,
>)
    ensures
        end_day.day() < start_day.day() ==> r == Err::<i64, AccountingError>(
            AccountingError::InvalidRange,
        ),
        is_day_range_answer(log@, start_day, end_day, r),
        r matches Ok(seconds) ==> seconds >= 0,
{
    let from_day = start_day.calendar_day();
    let to_day = end_day.calendar_day();
    if to_day < from_day {
        proof {
            lemma_answers_exist(log_records(log@));
            let gap = LocalResolution::Gap;
            assert(day_range_outcome(
                localized(no_answers(log_records(log@).len())),
                start_day,
                end_day,
                gap,
                gap,
            ) == Err::<i64, AccountingError>(AccountingError::InvalidRange));
        }
        Err(AccountingError::InvalidRange)
    } else if to_day == from_day {
        let r = single_day_work_time(log, start_day);
        proof {
            let (answers, first, last) = choose|
                answers: Seq<ZoneAnswer>,
                first: LocalResolution,
                last: LocalResolution,
            |
                answers_fit(log_records(log@), answers) && first.reads(start_day.day_start())
                    && last.reads(start_day.day_end()) && r == #[trigger] single_day_outcome(
                    localized(answers),
                    first,
                    last,
                );
            assert(r == day_range_outcome(localized(answers), start_day, end_day, first, last));
        }
        r
    } else {
        let first = first_second_of(start_day);
        let last = last_second_of(end_day);
        let entries = parse_log_entries(log);
        let r = day_range_total(&entries, start_day, end_day, &first, &last);
        proof {
            let answers = choose|answers: Seq<ZoneAnswer>|
                answers_fit(log_records(log@), answers) && entries@ == #[trigger] localized(
                    answers,
                );
            assert(r == day_range_outcome(localized(answers), start_day, end_day, first, last));
        }
        r
    }
}

/// Answers one query against a log.
pub fn account(log: &str, query: AccountingQuery) -> (r: Result<i64, AccountingError>)
    ensures
        match query {
            AccountingQuery::Precise(start, end) => is_precise_answer(log@, start, end, r),
            AccountingQuery::DayRange(start_day, end_day) => is_day_range_answer(
                log@,
                start_day,
                end_day,
                r,
            ),
            AccountingQuery::SingleDay(day) => is_single_day_answer(log@, day, r),
        },
        r matches Ok(seconds) ==> seconds >= 0,
{
    match query {
        AccountingQuery::Precise(start, end) => acc_work_time_precise(log, start, end),
        AccountingQuery::DayRange(start_day, end_day) => acc_work_time(log, start_day, end_day),
        AccountingQuery::SingleDay(day) => single_day_work_time(log, day),
    }
}

/// The work of one calendar day.
#[derive(Clone, Copy, Debug, PartialEq, Eq, Structural)]
pub struct DayTotal {
    /// A point in time on that day.
    pub day: LocalTimestamp,
    /// The seconds of work on that day.
    pub seconds: i64,
}

/// The number of steps of one day from `start` up to and including `end`.
pub open spec fn day_steps(start: LocalTimestamp, end: LocalTimestamp) -> int {
    if end.instant < start.instant {
        0
    } else {
        (end.instant - start.instant) / (SECONDS_PER_DAY as int) + 1
    }
}

/// The work of each day from `start_day` on, in steps of twenty-four
/// hours, as long as the step does not lead past `end_day`.
///
/// Each day is answered as a single day. The first day that has no answer
/// ends the series with its error, and so does a step to a point in time
/// that cannot be placed on the local clock.
pub fn daily_work_times(log: &str, start_day: LocalTimestamp, end_day: LocalTimestamp) -> (r:
    Result<Vec<DayTotal>, AccountingError>)
    ensures
        match r {
            Ok(days) => {
                &&& days@.len() == day_steps(start_day, end_day)
                &&& days@.len() > 0 ==> days@[0].day == start_day
                &&& forall|i: int|
                    0 <= i < days@.len() ==> {
                        &&& (#[trigger] days@[i]).day.instant == start_day.instant + i
                            * SECONDS_PER_DAY
                        &&& is_single_day_answer(
                            log@,
                            days@[i].day,
                            Ok::<i64, AccountingError>(days@[i].seconds),
                        )
                        &&& days@[i].seconds >= 0
                    }
            },
            Err(e) => e != AccountingError::InvalidRange && start_day.instant <= end_day.instant,
        },
{
    let mut days: Vec<DayTotal> = Vec::new();
    if end_day.instant < start_day.instant {
        return Ok(days);
    }
    let mut date = start_day;
    loop
        invariant
            date.instant <= end_day.instant,
            start_day.instant <= end_day.instant,
            date.instant == start_day.instant + days@.len() * SECONDS_PER_DAY,
            days@.len() == 0 ==> date == start_day,
            days@.len() > 0 ==> days@[0].day == start_day,
            forall|i: int|
                0 <= i < days@.len() ==> {
                    &&& (#[trigger] days@[i]).day.instant == start_day.instant + i
                        * SECONDS_PER_DAY
                    &&& is_single_day_answer(
                        log@,
                        days@[i].day,
                        Ok::<i64, AccountingError>(days@[i].seconds),
                    )
                    &&& days@[i].seconds >= 0
                },
        decreases end_day.instant - date.instant,
    {
        let seconds = match single_day_work_time(log, date) {
            Ok(seconds) => seconds,
            Err(e) => {
                proof {
                    lemma_single_day_errors(log@, date, e);
                }
                return Err(e);
            },
        };
        days.push(DayTotal { day: date, seconds });
        if end_day.instant as i128 - (date.instant as i128) < SECONDS_PER_DAY as i128 {
            proof {
                let steps = days@.len() - 1;
                assert(date.instant - start_day.instant == steps * SECONDS_PER_DAY);
                assert((end_day.instant - start_day.instant) / (SECONDS_PER_DAY as int) == steps)
                    by {
                    vstd::arithmetic::div_mod::lemma_fundamental_div_mod_converse(
                        end_day.instant - start_day.instant,
                        SECONDS_PER_DAY as int,
                        steps,
                        end_day.instant - date.instant,
                    );
                }
            }
            return Ok(days);
        }
        date = match local_time_at(date.instant + SECONDS_PER_DAY) {
            Some(next) => next,
            None => { return Err(AccountingError::UnresolvedDay); },
        };
    }
}

/// A single day is never refused as a range that ends before it starts.
pub proof fn lemma_single_day_errors(log: Seq<char>, day: LocalTimestamp, e: AccountingError)
    requires
        is_single_day_answer(log, day, Err::<i64, AccountingError>(e)),
    ensures
        e != AccountingError::InvalidRange,
{
}

/// Answers under which no reading occurs on the local clock.
pub open spec fn no_answers(n: nat) -> Seq<ZoneAnswer> {
    Seq::new(n, |i: int| ZoneAnswer { start: LocalResolution::Gap, end: LocalResolution::Gap })
}

/// Every sequence of records has answers that fit it.
pub proof fn lemma_answers_exist(records: Seq<CivilInterval>)
    ensures
        answers_fit(records, no_answers(records.len())),
{
}

/// A range of days that starts and ends on one calendar day is answered as
/// that single day, whatever the log holds.
pub proof fn lemma_day_range_of_one_day(
    entries: Seq<WorkInterval>,
    start_day: LocalTimestamp,
    end_day: LocalTimestamp,
    first: LocalResolution,
    last: LocalResolution,
)
    requires
        start_day.day() == end_day.day(),
    ensures
        day_range_outcome(entries, start_day, end_day, first, last) == single_day_outcome(
            entries,
            first,
            last,
        ),
        start_day.day_start() == end_day.day_start(),
        start_day.day_end() == end_day.day_end(),
{
}

/// A range that ends where it starts holds no work, whatever the log
/// holds.
pub proof fn lemma_precise_empty_range(entries: Seq<WorkInterval>, at: LocalTimestamp)
    ensures
        precise_outcome(entries, at, at) == Ok::<i64, AccountingError>(0),
{
}

/// A range that ends before it starts is refused, whatever the log holds.
pub proof fn lemma_precise_reversed_range(
    entries: Seq<WorkInterval>,
    start: LocalTimestamp,
    end: LocalTimestamp,
)
    requires
        end.instant < start.instant,
    ensures
        precise_outcome(entries, start, end) == Err::<i64, AccountingError>(
            AccountingError::InvalidRange,
        ),
{
}

/// A range of days whose last day lies before its first is refused,
/// whatever the log holds and whatever the zone answers.
pub proof fn lemma_day_range_reversed(
    entries: Seq<WorkInterval>,
    start_day: LocalTimestamp,
    end_day: LocalTimestamp,
    first: LocalResolution,
    last: LocalResolution,
)
    requires
        end_day.day() < start_day.day(),
    ensures
        day_range_outcome(entries, start_day, end_day, first, last) == Err::<i64, AccountingError>(
            AccountingError::InvalidRange,
        ),
{
}

/// A log without intervals accounts for no time in any range that does not
/// end before it starts.
pub proof fn lemma_precise_no_entries(start: LocalTimestamp, end: LocalTimestamp)
    requires
        start.instant <= end.instant,
    ensures
        precise_outcome(Seq::<WorkInterval>::empty(), start, end) == Ok::<i64, AccountingError>(0),
{
}

} // verus!
