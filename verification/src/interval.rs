//! Work intervals and how much of them falls into a range of time.

use crate::timestamp::{LocalTimestamp, SECONDS_PER_DAY};
use vstd::prelude::*;

verus! {

/// One continuous work session, from the moment the watched process was
/// first seen to the moment the session was closed.
///
/// A log written by the monitor holds intervals with `start <= end`. A log
/// that was edited by hand may hold others; they count for nothing.
#[derive(Clone, Copy, Debug, PartialEq, Eq, Structural)]
pub struct WorkInterval {
    pub start: LocalTimestamp,
    pub end: LocalTimestamp,
}

impl WorkInterval {
    /// The interval does not end before it starts.
    pub open spec fn is_ordered(self) -> bool {
        self.start.instant <= self.end.instant
    }

    /// Seconds from start to end.
    pub open spec fn length(self) -> int {
        self.end.instant - self.start.instant
    }

    /// Seconds that the interval shares with `[range_start, range_end]`.
    pub open spec fn overlap(self, range_start: int, range_end: int) -> int {
        overlap_seconds(self.start.instant as int, self.end.instant as int, range_start, range_end)
    }

    pub fn new(start: LocalTimestamp, end: LocalTimestamp) -> (w: WorkInterval)
        ensures
            w.start == start,
            w.end == end,
    {
        WorkInterval { start, end }
    }

    /// Seconds from start to end, or none for an interval that ends before
    /// it starts.
    pub fn duration_seconds(&self) -> (d: Option<u64>)
        ensures
            self.is_ordered() ==> d == Some(self.length() as u64),
            !self.is_ordered() ==> d is None,
    {
        if self.start.instant <= self.end.instant {
            let d: i128 = self.end.instant as i128 - self.start.instant as i128;
            Some(d as u64)
        } else {
            None
        }
    }
}

/// Seconds that `[start, end]` shares with `[range_start, range_end]`:
/// `max(0, min(end, range_end) - max(start, range_start))`.
pub open spec fn overlap_seconds(start: int, end: int, range_start: int, range_end: int) -> int {
    let lo = if start >= range_start { start } else { range_start };
    let hi = if end <= range_end { end } else { range_end };
    if lo < hi {
        hi - lo
    } else {
        0
    }
}

/// The sum of every interval's overlap with `[range_start, range_end]`.
/// Intervals that overlap each other are each counted in full.
pub open spec fn total_overlap(
    intervals: Seq<WorkInterval>,
    range_start: int,
    range_end: int,
) -> int
    decreases intervals.len(),
{
    if intervals.len() == 0 {
        0
    } else {
        total_overlap(intervals.drop_last(), range_start, range_end) + intervals.last().overlap(
            range_start,
            range_end,
        )
    }
}

/// A count of seconds as a machine integer, where it fits into one.
pub open spec fn checked_seconds(total: int) -> Option<i64> {
    if total <= i64::MAX {
        Some(total as i64)
    } else {
        None
    }
}

/// Seconds of `interval` inside `[range_start, range_end]`.
pub fn interval_overlap(interval: &WorkInterval, range_start: i64, range_end: i64) -> (d: u64)
    ensures
        d == interval.overlap(range_start as int, range_end as int),
{
    let lo: i64 = if interval.start.instant >= range_start {
        interval.start.instant
    } else {
        range_start
    };
    let hi: i64 = if interval.end.instant <= range_end {
        interval.end.instant
    } else {
        range_end
    };
    if lo < hi {
        let d: i128 = hi as i128 - lo as i128;
        d as u64
    } else {
        0
    }
}

/// Total seconds that `entries` share with the range from `range_start` to
/// `range_end`, or none where the total is more than an `i64` holds.
///
/// The entries need not be sorted or disjoint.
pub fn calculate_overlap(
    entries: &Vec<WorkInterval>,
    range_start: LocalTimestamp,
    range_end: LocalTimestamp,
) -> (total: Option<i64>)
    ensures
        total == checked_seconds(
            total_overlap(entries@, range_start.instant as int, range_end.instant as int),
        ),
{
    let ghost rs = range_start.instant as int;
    let ghost re = range_end.instant as int;
    let mut acc: i64 = 0;
    let mut i: usize = 0;
    while i < entries.len()
        invariant
            i <= entries.len(),
            rs == range_start.instant,
            re == range_end.instant,
            0 <= acc,
            acc == total_overlap(entries@.take(i as int), rs, re),
        decreases entries.len() - i,
    {
        let d: u64 = interval_overlap(&entries[i], range_start.instant, range_end.instant);
        proof {
            assert(entries@.take(i + 1).drop_last() =~= entries@.take(i as int));
            assert(entries@.take(i + 1).last() == entries@[i as int]);
        }
        if d > (i64::MAX - acc) as u64 {
            proof {
                lemma_total_overlap_prefix(entries@, i + 1, rs, re);
            }
            return None;
        }
        acc = acc + d as i64;
        i = i + 1;
    }
    proof {
        assert(entries@.take(entries@.len() as int) =~= entries@);
    }
    Some(acc)
}

/// No interval contributes a negative number of seconds.
pub proof fn lemma_total_overlap_nonnegative(
    intervals: Seq<WorkInterval>,
    range_start: int,
    range_end: int,
)
    ensures
        0 <= total_overlap(intervals, range_start, range_end),
    decreases intervals.len(),
{
    if intervals.len() > 0 {
        lemma_total_overlap_nonnegative(intervals.drop_last(), range_start, range_end);
    }
}

/// The total over the first `n` intervals is no more than the total over
/// all of them.
pub proof fn lemma_total_overlap_prefix(
    intervals: Seq<WorkInterval>,
    n: int,
    range_start: int,
    range_end: int,
)
    requires
        0 <= n <= intervals.len(),
    ensures
        total_overlap(intervals.take(n), range_start, range_end) <= total_overlap(
            intervals,
            range_start,
            range_end,
        ),
    decreases intervals.len(),
{
    if n == intervals.len() {
        assert(intervals.take(n) =~= intervals);
    } else {
        lemma_total_overlap_prefix(intervals.drop_last(), n, range_start, range_end);
        assert(intervals.drop_last().take(n) =~= intervals.take(n));
    }
}

/// A log without entries accounts for no time.
pub proof fn lemma_total_overlap_empty(range_start: int, range_end: int)
    ensures
        total_overlap(Seq::<WorkInterval>::empty(), range_start, range_end) == 0,
{
}

/// A range that ends where it starts, or before, shares no time with any
/// interval.
pub proof fn lemma_total_overlap_degenerate(
    intervals: Seq<WorkInterval>,
    range_start: int,
    range_end: int,
)
    requires
        range_end <= range_start,
    ensures
        total_overlap(intervals, range_start, range_end) == 0,
    decreases intervals.len(),
{
    if intervals.len() > 0 {
        lemma_total_overlap_degenerate(intervals.drop_last(), range_start, range_end);
    }
}

/// Appending one interval adds that interval's overlap to the total.
pub proof fn lemma_total_overlap_push(
    intervals: Seq<WorkInterval>,
    interval: WorkInterval,
    range_start: int,
    range_end: int,
)
    ensures
        total_overlap(intervals.push(interval), range_start, range_end) == total_overlap(
            intervals,
            range_start,
            range_end,
        ) + interval.overlap(range_start, range_end),
{
    assert(intervals.push(interval).drop_last() =~= intervals);
}

/// Taking one interval out of the sequence takes that interval's overlap
/// out of the total.
pub proof fn lemma_total_overlap_remove(
    intervals: Seq<WorkInterval>,
    i: int,
    range_start: int,
    range_end: int,
)
    requires
        0 <= i < intervals.len(),
    ensures
        total_overlap(intervals, range_start, range_end) == total_overlap(
            intervals.remove(i),
            range_start,
            range_end,
        ) + intervals[i].overlap(range_start, range_end),
    decreases intervals.len(),
{
    if i == intervals.len() - 1 {
        assert(intervals.remove(i) =~= intervals.drop_last());
    } else {
        lemma_total_overlap_remove(intervals.drop_last(), i, range_start, range_end);
        assert(intervals.remove(i).drop_last() =~= intervals.drop_last().remove(i));
        assert(intervals.remove(i).last() == intervals.last());
    }
}

/// The order of the intervals does not matter: two sequences that hold the
/// same intervals, each as often as the other, have the same total.
pub proof fn lemma_total_overlap_permutation(
    a: Seq<WorkInterval>,
    b: Seq<WorkInterval>,
    range_start: int,
    range_end: int,
)
    requires
        a.to_multiset() == b.to_multiset(),
    ensures
        total_overlap(a, range_start, range_end) == total_overlap(b, range_start, range_end),
    decreases a.len(),
{
    broadcast use vstd::seq_lib::group_to_multiset_ensures;

    a.to_multiset_ensures();
    b.to_multiset_ensures();
    if a.len() > 0 {
        let x = a.last();
        assert(a.to_multiset().count(x) > 0) by {
            assert(a.contains(x));
        }
        assert(b.contains(x));
        let j = choose|j: int| 0 <= j < b.len() && b[j] == x;
        assert(a.drop_last() =~= a.remove(a.len() - 1));
        assert(a.drop_last().to_multiset() =~= b.remove(j).to_multiset());
        lemma_total_overlap_permutation(a.drop_last(), b.remove(j), range_start, range_end);
        lemma_total_overlap_remove(b, j, range_start, range_end);
    }
}

/// Two calendar days that follow each other, each queried from its
/// 00:00:00 to its 23:59:59, count every second of an interval at most
/// once. An interval that lies within the two days and does not contain
/// midnight is counted in full; one that contains midnight loses exactly
/// the second from 23:59:59 to 00:00:00, which belongs to neither query.
pub proof fn lemma_adjacent_days_split(interval: WorkInterval, midnight: int)
    requires
        interval.is_ordered(),
        midnight - SECONDS_PER_DAY <= interval.start.instant,
        interval.end.instant <= midnight + SECONDS_PER_DAY - 1,
    ensures
        interval.overlap(midnight - SECONDS_PER_DAY, midnight - 1) + interval.overlap(
            midnight,
            midnight + SECONDS_PER_DAY - 1,
        ) == if interval.start.instant < midnight <= interval.end.instant {
            interval.length() - 1
        } else {
            interval.length()
        },
{
}

/// An interval that lies within two calendar days that follow each other
/// and does not contain the midnight between them is split between the two
/// single-day queries without loss: the two contributions add up to its
/// length.
pub proof fn lemma_adjacent_days_cover(interval: WorkInterval, midnight: int)
    requires
        interval.is_ordered(),
        midnight - SECONDS_PER_DAY <= interval.start.instant,
        interval.end.instant <= midnight + SECONDS_PER_DAY - 1,
        !(interval.start.instant < midnight <= interval.end.instant),
    ensures
        interval.overlap(midnight - SECONDS_PER_DAY, midnight - 1) + interval.overlap(
            midnight,
            midnight + SECONDS_PER_DAY - 1,
        ) == interval.length(),
{
}

} // verus!
