use chrono::{DateTime, Datelike, TimeZone, Utc, Weekday};
use envoy_metrics::bucket::{
    truncate, truncate_to_day, truncate_to_hour, truncate_to_week, Granularity,
};
use envoy_metrics::instant::{Instant, MAX_SECS, MIN_SECS};

fn at(year: i32, month: u32, day: u32, hour: u32, min: u32, sec: u32) -> Instant {
    let dt = Utc.with_ymd_and_hms(year, month, day, hour, min, sec).unwrap();
    Instant::new(dt.timestamp(), dt.timestamp_subsec_nanos()).unwrap()
}

fn samples() -> Vec<i64> {
    let mut secs: Vec<i64> = vec![
        MIN_SECS,
        MIN_SECS + 1,
        MIN_SECS + 3_599,
        MIN_SECS + 86_399,
        MIN_SECS + 604_799,
        MIN_SECS + 604_800,
        -604_801,
        -604_800,
        -345_601,
        -259_200,
        -86_401,
        -86_400,
        -3_601,
        -3_600,
        -1,
        0,
        1,
        3_599,
        3_600,
        86_399,
        86_400,
        345_599,
        345_600,
        604_799,
        604_800,
        950_399,
        950_400,
        1_710_327_510,
        4_102_444_800,
        MAX_SECS - 604_800,
        MAX_SECS - 1,
        MAX_SECS,
    ];
    let mut s: i64 = 1_700_000_000;
    while s < 1_700_000_000 + 9 * 86_400 {
        secs.push(s);
        s += 5_003;
    }
    let mut s: i64 = -1_000_000_000;
    while s < -1_000_000_000 + 9 * 86_400 {
        secs.push(s);
        s += 7_001;
    }
    secs
}

#[test]
fn hour_truncation_zeroes_minutes_and_seconds() {
    let t = Instant::new(at(2024, 3, 13, 10, 58, 30).secs, 500_000_000).unwrap();
    assert_eq!(truncate_to_hour(t), at(2024, 3, 13, 10, 0, 0));
    assert_eq!(truncate_to_hour(at(2024, 3, 13, 10, 0, 0)), at(2024, 3, 13, 10, 0, 0));
    assert_eq!(truncate_to_hour(at(2024, 3, 13, 23, 59, 59)), at(2024, 3, 13, 23, 0, 0));
}

#[test]
fn day_truncation_goes_to_midnight() {
    let t = Instant::new(at(2024, 3, 13, 10, 58, 30).secs, 1).unwrap();
    assert_eq!(truncate_to_day(t), at(2024, 3, 13, 0, 0, 0));
    assert_eq!(truncate_to_day(at(2024, 3, 13, 0, 0, 0)), at(2024, 3, 13, 0, 0, 0));
    assert_eq!(truncate_to_day(at(2024, 2, 29, 23, 59, 59)), at(2024, 2, 29, 0, 0, 0));
}

#[test]
fn week_truncation_goes_to_monday_midnight() {
    // 2024-03-13 was a Wednesday.
    assert_eq!(truncate_to_week(at(2024, 3, 13, 10, 58, 30)), at(2024, 3, 11, 0, 0, 0));
    // A Monday stays on its own day.
    assert_eq!(truncate_to_week(at(2024, 3, 11, 0, 0, 0)), at(2024, 3, 11, 0, 0, 0));
    assert_eq!(truncate_to_week(at(2024, 3, 11, 17, 45, 1)), at(2024, 3, 11, 0, 0, 0));
    // A Sunday goes back six days.
    assert_eq!(truncate_to_week(at(2024, 3, 17, 23, 59, 59)), at(2024, 3, 11, 0, 0, 0));
    // Across a month and a year.
    assert_eq!(truncate_to_week(at(2025, 1, 1, 12, 0, 0)), at(2024, 12, 30, 0, 0, 0));
}

#[test]
fn truncation_before_1970() {
    let t = at(1969, 12, 31, 23, 59, 59);
    assert_eq!(t.secs, -1);
    assert_eq!(truncate_to_hour(t), at(1969, 12, 31, 23, 0, 0));
    assert_eq!(truncate_to_day(t), at(1969, 12, 31, 0, 0, 0));
    // 1969-12-31 was a Wednesday.
    assert_eq!(truncate_to_week(t), at(1969, 12, 29, 0, 0, 0));
}

#[test]
fn truncation_by_granularity_matches_the_named_functions() {
    for secs in samples() {
        let t = Instant::new(secs, 123).unwrap();
        assert_eq!(truncate(Granularity::Hour, t), truncate_to_hour(t));
        assert_eq!(truncate(Granularity::Day, t), truncate_to_day(t));
        assert_eq!(truncate(Granularity::Week, t), truncate_to_week(t));
    }
}

#[test]
fn truncation_rounds_the_timestamp_down() {
    for secs in samples() {
        let t = Instant::new(secs, 999_999_999).unwrap();
        let hour = truncate_to_hour(t);
        assert_eq!(hour.secs, secs - secs.rem_euclid(3_600));
        assert_eq!(hour.nanos, 0);
        let day = truncate_to_day(t);
        assert_eq!(day.secs, secs - secs.rem_euclid(86_400));
        assert_eq!(day.nanos, 0);
        let week = truncate_to_week(t);
        let days_since_monday = (secs.div_euclid(86_400) + 3).rem_euclid(7);
        assert_eq!(week.secs, secs - secs.rem_euclid(86_400) - days_since_monday * 86_400);
        assert_eq!(week.secs, secs - (secs - 345_600).rem_euclid(604_800));
        assert_eq!(week.nanos, 0);
    }
}

#[test]
fn week_starts_are_mondays() {
    for secs in samples() {
        let week = truncate_to_week(Instant::new(secs, 0).unwrap());
        let dt = DateTime::from_timestamp(week.secs, week.nanos).unwrap();
        assert_eq!(dt.weekday(), Weekday::Mon);
        assert!(week.secs <= secs);
        assert!(secs - week.secs < 604_800);
    }
}

#[test]
fn truncation_is_idempotent() {
    for secs in samples() {
        let t = Instant::new(secs, 7).unwrap();
        for g in [Granularity::Hour, Granularity::Day, Granularity::Week] {
            let once = truncate(g, t);
            assert_eq!(truncate(g, once), once);
        }
    }
}

#[test]
fn truncation_is_monotonic() {
    let mut secs = samples();
    secs.sort();
    for g in [Granularity::Hour, Granularity::Day, Granularity::Week] {
        let mut previous: Option<Instant> = None;
        for s in secs.iter() {
            let bucket = truncate(g, Instant::new(*s, 0).unwrap());
            if let Some(p) = previous {
                assert!(!bucket.is_before(&p));
            }
            previous = Some(bucket);
        }
    }
}

#[test]
fn truncation_stays_in_the_supported_range() {
    for secs in [MIN_SECS, MIN_SECS + 1, MIN_SECS + 604_799, MAX_SECS] {
        let t = Instant::new(secs, 0).unwrap();
        for g in [Granularity::Hour, Granularity::Day, Granularity::Week] {
            let bucket = truncate(g, t);
            assert_eq!(Instant::new(bucket.secs, bucket.nanos), Some(bucket));
        }
    }
    let first = Instant::new(MIN_SECS, 0).unwrap();
    assert_eq!(truncate_to_week(first), first);
}

#[test]
fn truncation_rounds_down_all_over_the_range() {
    let span = (MAX_SECS - MIN_SECS) as u64 + 1;
    let mut state: u64 = 0x2545_f491_4f6c_dd1d;
    for _ in 0..200_000 {
        // xorshift: cheap, repeatable, well spread
        state ^= state << 13;
        state ^= state >> 7;
        state ^= state << 17;
        let secs = MIN_SECS + (state % span) as i64;
        let t = Instant::new(secs, (state % 1_000_000_000) as u32).unwrap();
        assert_eq!(
            truncate_to_hour(t),
            Instant { secs: secs - secs.rem_euclid(3_600), nanos: 0 }
        );
        assert_eq!(
            truncate_to_day(t),
            Instant { secs: secs - secs.rem_euclid(86_400), nanos: 0 }
        );
        assert_eq!(
            truncate_to_week(t),
            Instant { secs: secs - (secs - 345_600).rem_euclid(604_800), nanos: 0 }
        );
    }
}
