//! Points in local time, at a resolution of one second.

use vstd::prelude::*;

verus! {

/// Seconds in one civil day.
pub const SECONDS_PER_DAY: i64 = 86_400;

/// A point in time together with the local offset from UTC that was in
/// force at that point.
///
/// Two timestamps are ordered and compared by `instant` alone; the offset
/// only says which wall-clock time, and so which calendar day, the instant
/// falls on.
#[derive(Clone, Copy, Debug, PartialEq, Eq, Structural)]
pub struct LocalTimestamp {
    /// Seconds since 1970-01-01 00:00:00 UTC.
    pub instant: i64,
    /// Local time minus UTC, in seconds.
    pub offset: i32,
}

impl LocalTimestamp {
    /// The wall-clock reading, as seconds since 1970-01-01 00:00:00 on the
    /// local clock.
    pub open spec fn civil(self) -> int {
        self.instant + self.offset
    }

    /// The calendar day of the wall-clock reading, counted from 1970-01-01.
    pub open spec fn day(self) -> int {
        self.civil() / (SECONDS_PER_DAY as int)
    }

    /// Wall-clock seconds of 00:00:00 on this timestamp's calendar day.
    pub open spec fn day_start(self) -> int {
        self.day() * SECONDS_PER_DAY
    }

    /// Wall-clock seconds of 23:59:59 on this timestamp's calendar day.
    pub open spec fn day_end(self) -> int {
        self.day_start() + SECONDS_PER_DAY - 1
    }

    pub fn new(instant: i64, offset: i32) -> (t: LocalTimestamp)
        ensures
            t.instant == instant,
            t.offset == offset,
    {
        LocalTimestamp { instant, offset }
    }

    /// The calendar day of the wall-clock reading, counted from 1970-01-01.
    pub fn calendar_day(&self) -> (d: i64)
        ensures
            d == self.day(),
    {
        let civil: i128 = self.instant as i128 + self.offset as i128;
        let day: i128 = floor_div(civil, SECONDS_PER_DAY as i128);
        day as i64
    }
}

/// Division rounding toward negative infinity.
pub fn floor_div(x: i128, d: i128) -> (q: i128)
    requires
        0 < d,
        i128::MIN < x,
    ensures
        q == x as int / d as int,
{
    if x >= 0 {
        x / d
    } else {
        let q: i128 = (-x - 1) / d;
        proof {
            lemma_floor_div_negative(x as int, d as int);
        }
        -q - 1
    }
}

/// Below zero, rounding down is rounding the mirrored value toward zero,
/// mirrored back.
pub proof fn lemma_floor_div_negative(x: int, d: int)
    requires
        x < 0,
        0 < d,
    ensures
        x / d == -((-x - 1) / d) - 1,
{
    let n = -x - 1;
    vstd::arithmetic::div_mod::lemma_fundamental_div_mod(n, d);
    assert(x == d * (-(n / d) - 1) + (d - 1 - n % d)) by (nonlinear_arith)
        requires
            n == d * (n / d) + n % d,
            x == -n - 1,
    ;
    vstd::arithmetic::div_mod::lemma_fundamental_div_mod_converse(
        x,
        d,
        -(n / d) - 1,
        d - 1 - n % d,
    );
}

} // verus!
