use envoy_metrics::instant::Instant;
use envoy_metrics::time_map::TimeMap;

fn t(secs: i64) -> Instant {
    Instant::new(secs, 0).unwrap()
}

fn contents(map: &TimeMap<i64>) -> Vec<(i64, u32, i64)> {
    let mut out = Vec::new();
    for i in 0..map.len() {
        out.push((map.key(i).secs, map.key(i).nanos, *map.value(i)));
    }
    out
}

#[test]
fn a_new_map_is_empty() {
    let map: TimeMap<i64> = TimeMap::new();
    assert_eq!(map.len(), 0);
    assert_eq!(map.get(&t(0)), None);
}

#[test]
fn entries_are_kept_in_order_of_time() {
    let mut map: TimeMap<i64> = TimeMap::new();
    map.insert(t(30), 3);
    map.insert(t(10), 1);
    map.insert(t(20), 2);
    map.insert(t(-5), 0);
    map.insert(t(40), 4);
    assert_eq!(
        contents(&map),
        vec![(-5, 0, 0), (10, 0, 1), (20, 0, 2), (30, 0, 3), (40, 0, 4)]
    );
}

#[test]
fn nanoseconds_break_ties() {
    let mut map: TimeMap<i64> = TimeMap::new();
    map.insert(Instant::new(10, 500).unwrap(), 2);
    map.insert(Instant::new(10, 499).unwrap(), 1);
    map.insert(Instant::new(9, 999_999_999).unwrap(), 0);
    assert_eq!(contents(&map), vec![(9, 999_999_999, 0), (10, 499, 1), (10, 500, 2)]);
}

#[test]
fn insert_overwrites_the_same_instant() {
    let mut map: TimeMap<i64> = TimeMap::new();
    map.insert(t(10), 1);
    map.insert(t(20), 2);
    map.insert(t(30), 3);
    map.insert(t(20), 22);
    map.insert(t(10), 11);
    map.insert(t(30), 33);
    assert_eq!(contents(&map), vec![(10, 0, 11), (20, 0, 22), (30, 0, 33)]);
}

#[test]
fn get_finds_what_was_inserted() {
    let mut map: TimeMap<i64> = TimeMap::new();
    map.insert(t(10), 1);
    map.insert(t(30), 3);
    assert_eq!(map.get(&t(10)), Some(&1));
    assert_eq!(map.get(&t(30)), Some(&3));
    assert_eq!(map.get(&t(20)), None);
    assert_eq!(map.get(&t(5)), None);
    assert_eq!(map.get(&t(35)), None);
    assert_eq!(map.get(&Instant::new(10, 1).unwrap()), None);
}

#[test]
fn retain_since_drops_what_is_strictly_earlier() {
    let mut map: TimeMap<i64> = TimeMap::new();
    for s in [10, 20, 30, 40] {
        map.insert(t(s), s);
    }
    map.retain_since(&t(20));
    assert_eq!(contents(&map), vec![(20, 0, 20), (30, 0, 30), (40, 0, 40)]);
    map.retain_since(&Instant::new(20, 1).unwrap());
    assert_eq!(contents(&map), vec![(30, 0, 30), (40, 0, 40)]);
    map.retain_since(&t(0));
    assert_eq!(contents(&map), vec![(30, 0, 30), (40, 0, 40)]);
    map.retain_since(&t(41));
    assert_eq!(map.len(), 0);
    map.retain_since(&t(41));
    assert_eq!(map.len(), 0);
}
