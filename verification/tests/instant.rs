use chrono::{DateTime, Datelike, TimeDelta, Utc, Weekday};
use envoy_metrics::instant::{
    Instant, FIRST_MONDAY_SECS, MAX_DAYS_BACK, MAX_SECS, MIN_SECS, NANOS_PER_SEC,
};

#[test]
fn new_accepts_the_supported_range() {
    assert_eq!(Instant::new(0, 0), Some(Instant { secs: 0, nanos: 0 }));
    assert_eq!(Instant::new(MIN_SECS, 0), Some(Instant { secs: MIN_SECS, nanos: 0 }));
    assert_eq!(
        Instant::new(MAX_SECS, NANOS_PER_SEC - 1),
        Some(Instant { secs: MAX_SECS, nanos: 999_999_999 })
    );
    assert_eq!(Instant::new(-1, 5), Some(Instant { secs: -1, nanos: 5 }));
}

#[test]
fn new_rejects_what_lies_outside() {
    assert_eq!(Instant::new(MIN_SECS - 1, 0), None);
    assert_eq!(Instant::new(MAX_SECS + 1, 0), None);
    assert_eq!(Instant::new(0, NANOS_PER_SEC), None);
    assert_eq!(Instant::new(0, u32::MAX), None);
    assert_eq!(Instant::new(i64::MIN, 0), None);
    assert_eq!(Instant::new(i64::MAX, 0), None);
}

#[test]
fn order_is_by_seconds_then_nanoseconds() {
    let a = Instant::new(10, 5).unwrap();
    let b = Instant::new(10, 6).unwrap();
    let c = Instant::new(11, 0).unwrap();
    let d = Instant::new(-3, 999_999_999).unwrap();
    assert!(a.is_before(&b));
    assert!(b.is_before(&c));
    assert!(a.is_before(&c));
    assert!(d.is_before(&a));
    assert!(!b.is_before(&a));
    assert!(!a.is_before(&a));
    assert!(!c.is_before(&d));
}

#[test]
fn the_range_ends_where_the_calendar_ends() {
    assert_eq!(DateTime::<Utc>::MAX_UTC.timestamp(), MAX_SECS);
    assert!(DateTime::from_timestamp(MAX_SECS, NANOS_PER_SEC - 1).is_some());
    assert!(DateTime::from_timestamp(MAX_SECS + 1, 0).is_none());
}

#[test]
fn the_range_starts_on_a_monday_with_room_behind_it() {
    let first = DateTime::from_timestamp(MIN_SECS, 0).unwrap();
    assert_eq!(first.weekday(), Weekday::Mon);
    assert_eq!(first.timestamp() % 86_400, 0);
    let room = first - DateTime::<Utc>::MIN_UTC;
    assert!(room >= TimeDelta::days(MAX_DAYS_BACK));
    assert!(room < TimeDelta::days(MAX_DAYS_BACK + 7));
    assert!(first.checked_sub_signed(TimeDelta::days(MAX_DAYS_BACK)).is_some());
}

#[test]
fn the_first_monday_of_the_scale() {
    let monday = DateTime::from_timestamp(FIRST_MONDAY_SECS, 0).unwrap();
    assert_eq!(monday.weekday(), Weekday::Mon);
    assert_eq!((monday.year(), monday.month(), monday.day()), (1970, 1, 5));
    assert_eq!((MIN_SECS - FIRST_MONDAY_SECS).rem_euclid(604_800), 0);
}
