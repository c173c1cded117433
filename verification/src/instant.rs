//! UTC instants as plain values, and the calendar questions the engine asks
//! of them. The calendar itself is chrono's: the functions marked
//! `external_body` below call it, and their contracts are taken on trust.

use chrono::{DateTime, Datelike, NaiveTime, TimeDelta, Timelike, Utc};
use vstd::prelude::*;

verus! {

/// Seconds in an hour.
pub const SECS_PER_HOUR: i64 = 3_600;

/// Seconds in a day; a UTC day has no leap seconds on the timestamp scale.
pub const SECS_PER_DAY: i64 = 86_400;

/// Seconds in a week.
pub const SECS_PER_WEEK: i64 = 604_800;

/// Timestamp of the first Monday of the timestamp scale, 1970-01-05
/// 00:00:00 UTC.
pub const FIRST_MONDAY_SECS: i64 = 345_600;

/// Nanoseconds in a second.
pub const NANOS_PER_SEC: u32 = 1_000_000_000;

/// Days from a Monday to the Thursday on which the timestamp scale starts
/// (1970-01-01).
pub const EPOCH_DAYS_SINCE_MONDAY: i64 = 3;

/// The farthest that any operation of the engine reaches back from an
/// instant, in days.
pub const MAX_DAYS_BACK: i64 = 14;

/// Timestamp of the earliest supported instant, Monday -262143-01-20
/// 00:00:00 UTC: the first start of a week from which `MAX_DAYS_BACK` days
/// back is still a date that chrono can represent.
pub const MIN_SECS: i64 = -8_334_599_673_600;

/// Timestamp of the latest supported second, 262142-12-31 23:59:59 UTC, the
/// last one that chrono can represent.
pub const MAX_SECS: i64 = 8_210_266_876_799;

/// A UTC instant: whole seconds since 1970-01-01 00:00:00 UTC, leap seconds
/// not counted, and the nanoseconds since that second began.
#[derive(Clone, Copy, Debug, PartialEq, Eq, Structural)]
pub struct Instant {
    pub secs: i64,
    pub nanos: u32,
}

impl Instant {
    /// The instants the engine works on: inside the supported range and
    /// with a proper sub-second part.
    pub open spec fn wf(self) -> bool {
        &&& MIN_SECS <= self.secs <= MAX_SECS
        &&& self.nanos < NANOS_PER_SEC
    }

    /// Strictly earlier in time.
    pub open spec fn before(self, other: Instant) -> bool {
        self.secs < other.secs || (self.secs == other.secs && self.nanos < other.nanos)
    }

    /// Not later in time.
    pub open spec fn at_or_before(self, other: Instant) -> bool {
        !other.before(self)
    }

    /// Hour of the day, 0 to 23.
    pub open spec fn hour_of_day(self) -> int {
        (self.secs as int % SECS_PER_DAY as int) / SECS_PER_HOUR as int
    }

    /// Whole days since the most recent Monday, 0 on a Monday.
    pub open spec fn days_since_monday(self) -> int {
        (self.secs as int / SECS_PER_DAY as int + EPOCH_DAYS_SINCE_MONDAY as int) % 7
    }

    /// The same time of day, `days` days earlier.
    pub open spec fn minus_days(self, days: int) -> Instant {
        Instant { secs: (self.secs - days * SECS_PER_DAY) as i64, nanos: self.nanos }
    }

    /// The given full hour on the day of this instant.
    pub open spec fn at_hour(self, hour: int) -> Instant {
        Instant {
            secs: (self.secs - self.secs as int % SECS_PER_DAY as int + hour * SECS_PER_HOUR) as i64,
            nanos: 0,
        }
    }

    /// Builds an instant from a timestamp and its sub-second part, if it is
    /// one the engine supports.
    pub fn new(secs: i64, nanos: u32) -> (r: Option<Instant>)
        ensures
            r == (if (Instant { secs, nanos }).wf() {
                Some(Instant { secs, nanos })
            } else {
                None
            }),
    {
        if MIN_SECS <= secs && secs <= MAX_SECS && nanos < NANOS_PER_SEC {
            Some(Instant { secs, nanos })
        } else {
            None
        }
    }

    /// Whether this instant is strictly earlier than `other`.
    pub fn is_before(&self, other: &Instant) -> (r: bool)
        ensures
            r == self.before(*other),
    {
        self.secs < other.secs || (self.secs == other.secs && self.nanos < other.nanos)
    }
}

/// The current time, from chrono's `Utc::now`. chrono reads the system
/// clock, fails on one set before 1970 or past the last date it can
/// represent, and hands back whole nanoseconds below one second; so whatever
/// comes back is a supported instant. Two calls may differ: nothing else is
/// claimed.
#[verifier::external_body]
pub(crate) fn utc_now() -> (r: Instant)
    ensures
        r.wf(),
{
    let now = Utc::now();
    Instant { secs: now.timestamp(), nanos: now.timestamp_subsec_nanos() }
}

/// The hour of the day, from chrono's `Timelike::hour` on the UTC date-time
/// with this timestamp: the seconds into the day, in whole hours.
#[verifier::external_body]
pub(crate) fn hour_of_day(t: Instant) -> (h: u32)
    requires
        t.wf(),
    ensures
        h == t.hour_of_day(),
{
    DateTime::from_timestamp(t.secs, t.nanos).unwrap().hour()
}

/// The given full hour of the same day, from chrono's `DateTime::with_time`
/// with `NaiveTime::from_hms_opt(hour, 0, 0)`: the date is kept, minutes,
/// seconds and nanoseconds become zero.
#[verifier::external_body]
pub(crate) fn at_hour(t: Instant, hour: u32) -> (r: Instant)
    requires
        t.wf(),
        hour < 24,
    ensures
        r == t.at_hour(hour as int),
{
    let time = NaiveTime::from_hms_opt(hour, 0, 0).unwrap();
    let at = DateTime::from_timestamp(t.secs, t.nanos).unwrap().with_time(time).unwrap();
    Instant { secs: at.timestamp(), nanos: at.timestamp_subsec_nanos() }
}

/// Days since Monday, from chrono's `Datelike::weekday` and
/// `Weekday::num_days_from_monday` on the UTC date-time with this timestamp.
/// Day 0 of the timestamp scale was a Thursday, and weekdays repeat every
/// seven days.
#[verifier::external_body]
pub(crate) fn days_since_monday(t: Instant) -> (d: u32)
    requires
        t.wf(),
    ensures
        d == t.days_since_monday(),
{
    DateTime::from_timestamp(t.secs, t.nanos).unwrap().weekday().num_days_from_monday()
}

/// The same time of day `days` days earlier, from chrono's subtraction of
/// `TimeDelta::days(days)` from a UTC date-time. Off a leap second chrono
/// subtracts 86 400 seconds per day and keeps the sub-second part. The
/// result may lie before the supported range, never before chrono's.
#[verifier::external_body]
pub(crate) fn days_before(t: Instant, days: i64) -> (r: Instant)
    requires
        t.wf(),
        0 <= days <= MAX_DAYS_BACK,
    ensures
        r == t.minus_days(days as int),
{
    let at = DateTime::from_timestamp(t.secs, t.nanos).unwrap() - TimeDelta::days(days);
    Instant { secs: at.timestamp(), nanos: at.timestamp_subsec_nanos() }
}

} // verus!
