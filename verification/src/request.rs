//! Requests that come in as text: the dates are read before anything else
//! is done, and each failure has its own answer.

use crate::localtime::{
    local_candidates, naive_midnight_seconds, read_naive_date, LocalResolution,
};
use crate::timestamp::LocalTimestamp;
use vstd::prelude::*;

verus! {

/// Why a request was turned down before it was worked on.
#[derive(Clone, Copy, Debug, PartialEq, Eq, Structural)]
pub enum RequestError {
    /// The first date of the request is no date on the local clock.
    InvalidStart,
    /// The last date of the request is no date on the local clock.
    InvalidEnd,
}

/// The day that the zone's answer `r` stands for, if the text was a date
/// at all and its 00:00:00 occurs on the local clock.
pub open spec fn requested_day(text: Seq<char>, r: LocalResolution) -> Option<LocalTimestamp> {
    match naive_midnight_seconds(text) {
        Ok(_) => r.earliest(),
        Err(_) => None,
    }
}

/// The two days of a request, where the zone answered `first` for the
/// start and `last` for the end. The start is looked at first.
pub open spec fn requested_range(
    start: Seq<char>,
    end: Seq<char>,
    first: LocalResolution,
    last: LocalResolution,
) -> Result<(LocalTimestamp, LocalTimestamp), RequestError> {
    match requested_day(start, first) {
        None => Err(RequestError::InvalidStart),
        Some(from) => match requested_day(end, last) {
            None => Err(RequestError::InvalidEnd),
            Some(to) => Ok((from, to)),
        },
    }
}

/// Reads one date of a request, written as `YYYY-MM-DD`.
pub fn read_day(text: &str) -> (day: Option<LocalTimestamp>)
    ensures
        naive_midnight_seconds(text@) is Err ==> day is None,
        naive_midnight_seconds(text@) matches Ok(civil) ==> exists|r: LocalResolution|
            r.reads(civil as int) && day == #[trigger] requested_day(text@, r),
{
    match read_naive_date(text) {
        Err(_) => None,
        Ok(civil) => {
            let r = local_candidates(civil);
            let day = r.earliest_candidate();
            assert(day == requested_day(text@, r));
            day
        },
    }
}

/// Puts the two days of a request together; the start is looked at first.
pub fn range_of(start: Option<LocalTimestamp>, end: Option<LocalTimestamp>) -> (r: Result<
    (LocalTimestamp, LocalTimestamp),
    RequestError,
>)
    ensures
        r == match start {
            None => Err::<(LocalTimestamp, LocalTimestamp), RequestError>(
                RequestError::InvalidStart,
            ),
            Some(from) => match end {
                None => Err(RequestError::InvalidEnd),
                Some(to) => Ok((from, to)),
            },
        },
{
    match start {
        None => Err(RequestError::InvalidStart),
        Some(from) => match end {
            None => Err(RequestError::InvalidEnd),
            Some(to) => Ok((from, to)),
        },
    }
}

/// Reads the two dates of a request, each written as `YYYY-MM-DD`.
///
/// A start that is no date is reported before the end is looked at.
pub fn read_range(start: &str, end: &str) -> (r: Result<
    (LocalTimestamp, LocalTimestamp),
    RequestError,
>)
    ensures
        naive_midnight_seconds(start@) is Err ==> r == Err::<
            (LocalTimestamp, LocalTimestamp),
            RequestError,
        >(RequestError::InvalidStart),
        naive_midnight_seconds(start@) is Ok && naive_midnight_seconds(end@) is Err ==> r is Err,
        r matches Ok((from, to)) ==> {
            &&& naive_midnight_seconds(start@) matches Ok(a) && from.civil() == a
            &&& naive_midnight_seconds(end@) matches Ok(b) && to.civil() == b
        },
{
    let from = read_day(start);
    if from.is_none() {
        return Err(RequestError::InvalidStart);
    }
    let to = read_day(end);
    range_of(from, to)
}

/// The words of the answer to a request that was turned down.
pub fn refusal(error: RequestError) -> (words: &'static str)
    ensures
        words@ == match error {
            RequestError::InvalidStart => "Invalid start time"@,
            RequestError::InvalidEnd => "Invalid end time"@,
        },
{
    match error {
        RequestError::InvalidStart => "Invalid start time",
        RequestError::InvalidEnd => "Invalid end time",
    }
}

} // verus!
