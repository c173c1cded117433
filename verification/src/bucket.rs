//! Bucket truncation: the start of the hour, day or week that holds an
//! instant. Weeks start on Monday; all of it is in UTC.

use crate::instant::{at_hour, days_before, days_since_monday, hour_of_day, Instant};
use crate::instant::{
    EPOCH_DAYS_SINCE_MONDAY, FIRST_MONDAY_SECS, SECS_PER_DAY, SECS_PER_HOUR, SECS_PER_WEEK,
};
use vstd::prelude::*;

verus! {

/// The three resolutions at which samples are rolled up.
#[derive(Clone, Copy, Debug, PartialEq, Eq, Structural)]
pub enum Granularity {
    Hour,
    Day,
    Week,
}

impl Instant {
    /// Start of the hour that holds this instant.
    pub open spec fn hour_start(self) -> Instant {
        Instant { secs: (self.secs - self.secs as int % SECS_PER_HOUR as int) as i64, nanos: 0 }
    }

    /// Midnight of the day that holds this instant.
    pub open spec fn day_start(self) -> Instant {
        Instant { secs: (self.secs - self.secs as int % SECS_PER_DAY as int) as i64, nanos: 0 }
    }

    /// Midnight of the most recent Monday, this day itself on a Monday.
    pub open spec fn week_start(self) -> Instant {
        self.minus_days(self.days_since_monday()).day_start()
    }
}

impl Granularity {
    /// Start of the bucket of this resolution that holds `t`.
    pub open spec fn bucket_of(self, t: Instant) -> Instant {
        match self {
            Granularity::Hour => t.hour_start(),
            Granularity::Day => t.day_start(),
            Granularity::Week => t.week_start(),
        }
    }
}

/// Sets minutes, seconds and nanoseconds to zero.
pub fn truncate_to_hour(t: Instant) -> (r: Instant)
    requires
        t.wf(),
    ensures
        r == t.hour_start(),
        r.wf(),
{
    let hour: u32 = hour_of_day(t);
    at_hour(t, hour)
}

/// Sets the time of day to midnight.
pub fn truncate_to_day(t: Instant) -> (r: Instant)
    requires
        t.wf(),
    ensures
        r == t.day_start(),
        r.wf(),
{
    at_hour(t, 0)
}

/// Goes back to the most recent Monday and sets the time of day to midnight.
pub fn truncate_to_week(t: Instant) -> (r: Instant)
    requires
        t.wf(),
    ensures
        r == t.week_start(),
        r.wf(),
{
    let days: u32 = days_since_monday(t);
    let midnight: Instant = truncate_to_day(t);
    days_before(midnight, days as i64)
}

/// Start of the bucket of resolution `g` that holds `t`.
pub fn truncate(g: Granularity, t: Instant) -> (r: Instant)
    requires
        t.wf(),
    ensures
        r == g.bucket_of(t),
        r.wf(),
{
    match g {
        Granularity::Hour => truncate_to_hour(t),
        Granularity::Day => truncate_to_day(t),
        Granularity::Week => truncate_to_week(t),
    }
}

/// A bucket starts no later than any instant it holds, and is itself a
/// supported instant.
pub proof fn lemma_bucket_start_not_after(g: Granularity, t: Instant)
    requires
        t.wf(),
    ensures
        g.bucket_of(t).wf(),
        g.bucket_of(t).at_or_before(t),
{
}

/// Truncation is idempotent: the start of a bucket is its own bucket start.
pub proof fn lemma_truncate_idempotent(g: Granularity, t: Instant)
    requires
        t.wf(),
    ensures
        g.bucket_of(g.bucket_of(t)) == g.bucket_of(t),
{
}

/// Rounding down to a multiple of `n` keeps the order of two numbers.
proof fn lemma_round_down_monotonic(a: int, b: int, n: int)
    requires
        n > 0,
        a <= b,
    ensures
        a - a % n <= b - b % n,
{
    vstd::arithmetic::div_mod::lemma_fundamental_div_mod(a, n);
    vstd::arithmetic::div_mod::lemma_fundamental_div_mod(b, n);
    vstd::arithmetic::div_mod::lemma_div_is_ordered(a, b, n);
    vstd::arithmetic::mul::lemma_mul_inequality(a / n, b / n, n);
    vstd::arithmetic::mul::lemma_mul_is_commutative(a / n, n);
    vstd::arithmetic::mul::lemma_mul_is_commutative(b / n, n);
}

/// The start of the week is the timestamp rounded down to a whole number of
/// weeks, counted from the first Monday of the timestamp scale.
proof fn lemma_week_start_rounds_down(t: Instant)
    requires
        t.wf(),
    ensures
        t.week_start().nanos == 0,
        t.week_start().secs == t.secs - (t.secs - FIRST_MONDAY_SECS) % (SECS_PER_WEEK as int),
{
    let s: int = t.secs as int;
    let day: int = s / (SECS_PER_DAY as int);
    let in_day: int = s % (SECS_PER_DAY as int);
    let weeks: int = (day + EPOCH_DAYS_SINCE_MONDAY) / 7;
    let in_week: int = (day + EPOCH_DAYS_SINCE_MONDAY) % 7;
    assert(s - FIRST_MONDAY_SECS == (weeks - 1) * SECS_PER_WEEK + (in_week * SECS_PER_DAY + in_day));
    vstd::arithmetic::div_mod::lemma_fundamental_div_mod_converse(
        s - FIRST_MONDAY_SECS,
        SECS_PER_WEEK as int,
        weeks - 1,
        in_week * SECS_PER_DAY + in_day,
    );
}

/// Truncation is monotonic: of two instants, the earlier one never lands in
/// the later bucket.
pub proof fn lemma_truncate_monotonic(g: Granularity, t1: Instant, t2: Instant)
    requires
        t1.wf(),
        t2.wf(),
        t1.at_or_before(t2),
    ensures
        g.bucket_of(t1).at_or_before(g.bucket_of(t2)),
{
    let a: int = t1.secs as int;
    let b: int = t2.secs as int;
    match g {
        Granularity::Hour => {
            lemma_round_down_monotonic(a, b, SECS_PER_HOUR as int);
        },
        Granularity::Day => {
            lemma_round_down_monotonic(a, b, SECS_PER_DAY as int);
        },
        Granularity::Week => {
            lemma_week_start_rounds_down(t1);
            lemma_week_start_rounds_down(t2);
            lemma_round_down_monotonic(
                a - FIRST_MONDAY_SECS,
                b - FIRST_MONDAY_SECS,
                SECS_PER_WEEK as int,
            );
        },
    }
}

} // verus!
