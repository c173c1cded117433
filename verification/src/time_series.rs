//! One metric's series: its raw points, and the statistics rolled up from
//! them per hour, per day and per week.

use crate::bucket::{lemma_truncate_monotonic, truncate, Granularity};
use crate::instant::{days_before, utc_now, Instant};
use crate::statistics::{lemma_single_point, Point, Statistics};
use crate::time_map::{
    as_map, has_key, index_of, lemma_as_map_push, lemma_entries_unique, lemma_entry_in_map, since,
    strictly_increasing, TimeMap,
};
use vstd::prelude::*;

verus! {

/// Age in days beyond which raw points are dropped.
pub const RETENTION_DAYS: i64 = 14;

/// Length in days of the trailing window of hourly averages.
pub const TRAILING_DAYS: i64 = 1;

/// The bucket of resolution `g` that holds the most recent of `points`,
/// which are in ascending order of time.
pub open spec fn latest_bucket(points: Seq<(Instant, Point)>, g: Granularity) -> Instant
    recommends
        points.len() > 0,
{
    g.bucket_of(points.last().0)
}

/// The values of those of `points` that fall into `bucket`, in the order of
/// the points.
pub open spec fn bucket_values(points: Seq<(Instant, Point)>, g: Granularity, bucket: Instant) -> Seq<
    Point,
> {
    points.filter(|p: (Instant, Point)| g.bucket_of(p.0) == bucket).map_values(
        |p: (Instant, Point)| p.1,
    )
}

/// What an aggregation of `points` yields: nothing without points, else the
/// latest bucket with the statistics of exactly the points in it.
pub open spec fn rollup(points: Seq<(Instant, Point)>, g: Granularity) -> Option<(Instant, Statistics)> {
    if points.len() == 0 {
        None
    } else {
        let bucket = latest_bucket(points, g);
        Some((bucket, Statistics::of(bucket_values(points, g, bucket))))
    }
}

/// A rollup store after an aggregation of `points`: the entry of the latest
/// bucket is written, every other entry is as before.
pub open spec fn recomputed(
    store: Map<Instant, Statistics>,
    points: Seq<(Instant, Point)>,
    g: Granularity,
) -> Map<Instant, Statistics> {
    match rollup(points, g) {
        Some((bucket, statistics)) => store.insert(bucket, statistics),
        None => store,
    }
}

/// Every entry of `store` is well formed and counts at least one point.
pub open spec fn counts_points(store: Map<Instant, Statistics>) -> bool {
    forall|k: Instant| #[trigger]
        store.contains_key(k) ==> store[k].wf() && store[k].count > 0
}

/// The entry of `store` at `key`, if there is one.
pub open spec fn lookup(store: Map<Instant, Statistics>, key: Instant) -> Option<Statistics> {
    if store.contains_key(key) {
        Some(store[key])
    } else {
        None
    }
}

/// The averages of the entries of `store` at or after `threshold`.
pub open spec fn averages_since(store: Map<Instant, Statistics>, threshold: Instant) -> Map<
    Instant,
    Point,
> {
    Map::new(
        |k: Instant| store.contains_key(k) && threshold.at_or_before(k),
        |k: Instant| store[k].average,
    )
}

/// Among points in ascending order of time, no point falls into a later
/// bucket than the most recent one.
pub proof fn lemma_latest_bucket_is_greatest(points: Seq<(Instant, Point)>, g: Granularity, i: int)
    requires
        strictly_increasing(points),
        forall|j: int| 0 <= j < points.len() ==> (#[trigger] points[j]).0.wf(),
        0 <= i < points.len(),
    ensures
        g.bucket_of(points[i].0).at_or_before(latest_bucket(points, g)),
{
    let last = points.len() - 1;
    assert(points[i].0.at_or_before(points[last].0));
    lemma_truncate_monotonic(g, points[i].0, points[last].0);
}

/// What a series reports at one moment.
#[derive(Debug)]
pub struct TimeSeriesSummary {
    /// Statistics of the hour that holds the moment, if any were rolled up.
    pub hour: Option<Statistics>,
    /// Statistics of the day that holds the moment, if any were rolled up.
    pub day: Option<Statistics>,
    /// Statistics of the week that holds the moment, if any were rolled up.
    pub week: Option<Statistics>,
    /// Average of every hourly bucket that starts no earlier than
    /// `TRAILING_DAYS` days before the moment, in ascending order of time.
    pub last_24h: TimeMap<Point>,
}

impl TimeSeriesSummary {
    /// The statistics reported for the current bucket of resolution `g`.
    pub open spec fn of(&self, g: Granularity) -> Option<Statistics> {
        match g {
            Granularity::Hour => self.hour,
            Granularity::Day => self.day,
            Granularity::Week => self.week,
        }
    }

    /// This is the summary of `row` as of `now`.
    pub open spec fn describes(&self, row: &TimeSeriesRow, now: Instant) -> bool {
        &&& self.hour == row.current(Granularity::Hour, now)
        &&& self.day == row.current(Granularity::Day, now)
        &&& self.week == row.current(Granularity::Week, now)
        &&& self.last_24h.wf()
        &&& self.last_24h@ == averages_since(
            row.rollups(Granularity::Hour),
            now.minus_days(TRAILING_DAYS as int),
        )
    }
}

/// The statistics behind a reference, by value.
fn copied(found: Option<&Statistics>) -> (r: Option<Statistics>)
    ensures
        r == (match found {
            Some(statistics) => Some(*statistics),
            None => None,
        }),
{
    match found {
        Some(statistics) => Some(*statistics),
        None => None,
    }
}

/// The series of one metric.
#[derive(Debug)]
pub struct TimeSeriesRow {
    raw_data: TimeMap<Point>,
    hourly_data: TimeMap<Statistics>,
    daily_data: TimeMap<Statistics>,
    weekly_data: TimeMap<Statistics>,
}

impl TimeSeriesRow {
    /// The raw points in ascending order of time.
    pub closed spec fn raw_points(&self) -> Seq<(Instant, Point)> {
        self.raw_data.entries()
    }

    /// The raw points as a mapping from instant to value.
    pub closed spec fn raw(&self) -> Map<Instant, Point> {
        self.raw_data@
    }

    /// The rollup store of resolution `g`, from bucket start to statistics.
    pub closed spec fn rollups(&self, g: Granularity) -> Map<Instant, Statistics> {
        match g {
            Granularity::Hour => self.hourly_data@,
            Granularity::Day => self.daily_data@,
            Granularity::Week => self.weekly_data@,
        }
    }

    /// All four stores are in order and hold supported instants only, and
    /// every rollup entry counts at least one point.
    pub closed spec fn wf(&self) -> bool {
        &&& self.raw_data.wf()
        &&& self.hourly_data.wf()
        &&& self.daily_data.wf()
        &&& self.weekly_data.wf()
        &&& counts_points(self.hourly_data@)
        &&& counts_points(self.daily_data@)
        &&& counts_points(self.weekly_data@)
    }

    /// The entry of the bucket of resolution `g` that holds `now`, if any
    /// was rolled up.
    pub open spec fn current(&self, g: Granularity, now: Instant) -> Option<Statistics> {
        lookup(self.rollups(g), g.bucket_of(now))
    }

    /// This series is `before` after the point `datum` at `dt` was appended:
    /// the point is stored, in place of any point at `dt`, and in each
    /// rollup store the entry of the latest bucket is recomputed from the
    /// points now stored, every other entry being as it was.
    pub open spec fn appended(&self, before: &TimeSeriesRow, dt: Instant, datum: Point) -> bool {
        &&& self.wf()
        &&& self.raw() == before.raw().insert(dt, datum)
        &&& forall|g: Granularity| #[trigger]
            self.rollups(g) == recomputed(before.rollups(g), self.raw_points(), g)
    }

    /// This series is `before` after retention as of `now`: the raw points
    /// that are more than `RETENTION_DAYS` days older than `now` are gone,
    /// and nothing else has changed.
    pub open spec fn retained(&self, before: &TimeSeriesRow, now: Instant) -> bool {
        &&& self.wf()
        &&& self.raw() == since(before.raw(), now.minus_days(RETENTION_DAYS as int))
        &&& forall|g: Granularity| #[trigger] self.rollups(g) == before.rollups(g)
    }

    /// The raw points are in ascending order of time, are supported
    /// instants, and spell out the raw mapping.
    pub proof fn lemma_raw_points(&self)
        requires
            self.wf(),
        ensures
            strictly_increasing(self.raw_points()),
            forall|i: int| 0 <= i < self.raw_points().len() ==> (#[trigger] self.raw_points()[i]).0.wf(),
            as_map(self.raw_points()) == self.raw(),
    {
    }

    /// Every rollup entry is well formed and counts at least one point.
    pub proof fn lemma_rollups_count_points(&self, g: Granularity)
        requires
            self.wf(),
        ensures
            counts_points(self.rollups(g)),
    {
    }

    /// A series without points and without rollups.
    pub fn new() -> (r: Self)
        ensures
            r.wf(),
            r.raw() == Map::<Instant, Point>::empty(),
            r.raw_points() == Seq::<(Instant, Point)>::empty(),
            forall|g: Granularity| #[trigger] r.rollups(g) == Map::<Instant, Statistics>::empty(),
    {
        TimeSeriesRow {
            raw_data: TimeMap::new(),
            hourly_data: TimeMap::new(),
            daily_data: TimeMap::new(),
            weekly_data: TimeMap::new(),
        }
    }

    /// The store of the raw points.
    pub fn raw_data(&self) -> (r: &TimeMap<Point>)
        requires
            self.wf(),
        ensures
            r.wf(),
            r@ == self.raw(),
            r.entries() == self.raw_points(),
    {
        &self.raw_data
    }

    /// The rollup store of resolution `g`.
    pub fn rollup_data(&self, g: Granularity) -> (r: &TimeMap<Statistics>)
        requires
            self.wf(),
        ensures
            r.wf(),
            r@ == self.rollups(g),
    {
        match g {
            Granularity::Hour => &self.hourly_data,
            Granularity::Day => &self.daily_data,
            Granularity::Week => &self.weekly_data,
        }
    }

    /// Aggregates the raw points at resolution `g`: maps every point to its
    /// bucket, takes the greatest bucket, and computes the statistics of the
    /// points in it.
    fn aggregate_generic(&self, g: Granularity) -> (r: Option<(Instant, Statistics)>)
        requires
            self.wf(),
        ensures
            r == rollup(self.raw_points(), g),
            r matches Some(found) ==> found.0.wf() && found.1.wf() && found.1.count > 0,
    {
        let n: usize = self.raw_data.len();
        if n == 0 {
            return None;
        }
        let ghost points = self.raw_points();
        let mut buckets: Vec<Instant> = Vec::new();
        let mut i: usize = 0;
        while i < n
            invariant
                self.wf(),
                points == self.raw_points(),
                n == points.len(),
                i <= n,
                buckets@.len() == i,
                forall|j: int| 0 <= j < i ==> #[trigger] buckets@[j] == g.bucket_of(points[j].0),
                forall|j: int| 0 <= j < i ==> (#[trigger] buckets@[j]).wf(),
            decreases n - i,
        {
            let bucket: Instant = truncate(g, self.raw_data.key(i));
            buckets.push(bucket);
            i = i + 1;
        }
        let mut current: Instant = buckets[0];
        let ghost mut at: int = 0;
        i = 1;
        while i < n
            invariant
                n == points.len(),
                buckets@.len() == n,
                1 <= i <= n,
                0 <= at < i,
                current == buckets@[at],
                forall|j: int| 0 <= j < i ==> (#[trigger] buckets@[j]).at_or_before(current),
            decreases n - i,
        {
            if current.is_before(&buckets[i]) {
                current = buckets[i];
                proof {
                    at = i as int;
                }
            }
            i = i + 1;
        }
        proof {
            lemma_latest_bucket_is_greatest(points, g, at);
            assert(buckets@[n - 1].at_or_before(current));
            assert(current == latest_bucket(points, g));
        }
        let ghost in_bucket = |p: (Instant, Point)| g.bucket_of(p.0) == current;
        let ghost value_of = |p: (Instant, Point)| p.1;
        let mut values: Vec<Point> = Vec::new();
        i = 0;
        proof {
            reveal(Seq::filter);
        }
        while i < n
            invariant
                self.wf(),
                points == self.raw_points(),
                n == points.len(),
                buckets@.len() == n,
                i <= n,
                0 <= at < n,
                current == buckets@[at],
                forall|j: int| 0 <= j < n ==> #[trigger] buckets@[j] == g.bucket_of(points[j].0),
                in_bucket == (|p: (Instant, Point)| g.bucket_of(p.0) == current),
                value_of == (|p: (Instant, Point)| p.1),
                values@ == points.take(i as int).filter(in_bucket).map_values(value_of),
                at < i ==> values@.len() > 0,
            decreases n - i,
        {
            proof {
                reveal(Seq::filter);
                assert(points.take(i + 1).drop_last() =~= points.take(i as int));
                assert(points.take(i + 1).last() == points[i as int]);
            }
            if buckets[i] == current {
                values.push(*self.raw_data.value(i));
                proof {
                    let kept = points.take(i as int).filter(in_bucket);
                    assert(kept.push(points[i as int]).map_values(value_of) =~= kept.map_values(
                        value_of,
                    ).push(points[i as int].1));
                }
            }
            i = i + 1;
        }
        proof {
            assert(points.take(n as int) =~= points);
        }
        Some((current, Statistics::from_points(values.as_slice())))
    }

    /// Recomputes the latest bucket of each resolution from the raw points
    /// and writes it into its store.
    fn aggregate(&mut self)
        requires
            old(self).wf(),
        ensures
            final(self).wf(),
            final(self).raw_points() == old(self).raw_points(),
            final(self).raw() == old(self).raw(),
            forall|g: Granularity| #[trigger]
                final(self).rollups(g) == recomputed(old(self).rollups(g), old(self).raw_points(), g),
    {
        match self.aggregate_generic(Granularity::Hour) {
            Some((dt, stat)) => {
                self.hourly_data.insert(dt, stat);
            },
            None => {},
        }
        match self.aggregate_generic(Granularity::Day) {
            Some((dt, stat)) => {
                self.daily_data.insert(dt, stat);
            },
            None => {},
        }
        match self.aggregate_generic(Granularity::Week) {
            Some((dt, stat)) => {
                self.weekly_data.insert(dt, stat);
            },
            None => {},
        }
    }

    /// Stores `datum` at `dt`, in place of any point stored at `dt` before,
    /// and recomputes the latest bucket of each resolution from the points
    /// then stored.
    pub fn append(&mut self, dt: Instant, datum: Point)
        requires
            old(self).wf(),
            dt.wf(),
        ensures
            final(self).appended(old(self), dt, datum),
    {
        self.raw_data.insert(dt, datum);
        self.aggregate();
    }

    /// The summary as of `now`: the entries of the hour, day and week that
    /// hold `now`, looked up and not recomputed, and the hourly averages of
    /// the trailing window.
    pub fn summary_at(&self, now: Instant) -> (r: TimeSeriesSummary)
        requires
            self.wf(),
            now.wf(),
        ensures
            r.describes(self, now),
    {
        let hour: Option<Statistics> = copied(self.hourly_data.get(&truncate(Granularity::Hour, now)));
        let day: Option<Statistics> = copied(self.daily_data.get(&truncate(Granularity::Day, now)));
        let week: Option<Statistics> = copied(self.weekly_data.get(&truncate(Granularity::Week, now)));
        let yesterday: Instant = days_before(now, TRAILING_DAYS);
        let ghost store = self.hourly_data.entries();
        let n: usize = self.hourly_data.len();
        let mut last_24h: TimeMap<Point> = TimeMap::new();
        let mut i: usize = 0;
        while i < n
            invariant
                self.wf(),
                store == self.hourly_data.entries(),
                n == store.len(),
                i <= n,
                last_24h.wf(),
                last_24h@ == averages_since(as_map(store.take(i as int)), yesterday),
            decreases n - i,
        {
            let key: Instant = self.hourly_data.key(i);
            proof {
                lemma_as_map_push(store.take(i as int), store[i as int]);
                assert(store.take(i as int).push(store[i as int]) =~= store.take(i + 1));
            }
            if !key.is_before(&yesterday) {
                let average: Point = self.hourly_data.value(i).average;
                last_24h.insert(key, average);
            }
            i = i + 1;
        }
        proof {
            assert(store.take(n as int) =~= store);
        }
        TimeSeriesSummary { hour, day, week, last_24h }
    }

    /// The summary as of the current time, read once from the clock.
    pub fn summary(&self) -> (r: TimeSeriesSummary)
        requires
            self.wf(),
        ensures
            exists|now: Instant| now.wf() && r.describes(self, now),
    {
        let now: Instant = utc_now();
        self.summary_at(now)
    }

    /// Drops the raw points that are more than `RETENTION_DAYS` days older
    /// than `now`. The rollup stores are left as they are.
    pub fn maintain_at(&mut self, now: Instant)
        requires
            old(self).wf(),
            now.wf(),
        ensures
            final(self).retained(old(self), now),
    {
        let threshold: Instant = days_before(now, RETENTION_DAYS);
        self.raw_data.retain_since(&threshold);
    }

    /// Drops the raw points that are more than `RETENTION_DAYS` days older
    /// than the current time, read once from the clock.
    pub fn maintain(&mut self)
        requires
            old(self).wf(),
        ensures
            exists|now: Instant| now.wf() && final(self).retained(old(self), now),
    {
        let now: Instant = utc_now();
        self.maintain_at(now);
    }
}

impl Default for TimeSeriesRow {
    /// A series without points and without rollups.
    fn default() -> (r: Self)
        ensures
            r.wf(),
            r.raw() == Map::<Instant, Point>::empty(),
            forall|g: Granularity| #[trigger] r.rollups(g) == Map::<Instant, Statistics>::empty(),
    {
        TimeSeriesRow::new()
    }
}

/// A series is known by its raw mapping: two series that store the same
/// points at the same instants hold them in the same order.
pub proof fn lemma_raw_points_determined(a: TimeSeriesRow, b: TimeSeriesRow)
    requires
        a.wf(),
        b.wf(),
        a.raw() == b.raw(),
    ensures
        a.raw_points() == b.raw_points(),
{
    a.lemma_raw_points();
    b.lemma_raw_points();
    lemma_entries_unique(a.raw_points(), b.raw_points());
}

/// After an append, the latest bucket is the greatest bucket over all the
/// points stored, and one of them falls into it.
pub proof fn lemma_append_latest_bucket(
    before: TimeSeriesRow,
    after: TimeSeriesRow,
    dt: Instant,
    datum: Point,
    g: Granularity,
)
    requires
        before.wf(),
        dt.wf(),
        after.appended(&before, dt, datum),
    ensures
        after.raw_points().len() > 0,
        after.raw().contains_key(after.raw_points().last().0),
        forall|k: Instant| #[trigger]
            after.raw().contains_key(k) ==> g.bucket_of(k).at_or_before(
                latest_bucket(after.raw_points(), g),
            ),
{
    after.lemma_raw_points();
    let points = after.raw_points();
    assert(has_key(points, dt)) by {
        assert(after.raw().contains_key(dt));
    }
    lemma_entry_in_map(points, points.len() - 1);
    assert forall|k: Instant| #[trigger] after.raw().contains_key(k) implies g.bucket_of(
        k,
    ).at_or_before(latest_bucket(points, g)) by {
        let i = index_of(points, k);
        lemma_latest_bucket_is_greatest(points, g, i);
    }
}

/// After a point is appended that falls into no earlier bucket than any
/// point stored before, the entry of its bucket holds the statistics of
/// exactly the points now stored that fall into that bucket; a summary taken
/// while that bucket is the current one shows them.
pub proof fn lemma_append_then_current(
    before: TimeSeriesRow,
    after: TimeSeriesRow,
    dt: Instant,
    datum: Point,
    g: Granularity,
    now: Instant,
)
    requires
        before.wf(),
        dt.wf(),
        after.appended(&before, dt, datum),
        forall|k: Instant| #[trigger]
            before.raw().contains_key(k) ==> g.bucket_of(k).at_or_before(g.bucket_of(dt)),
        g.bucket_of(now) == g.bucket_of(dt),
    ensures
        after.current(g, now) == Some(
            Statistics::of(bucket_values(after.raw_points(), g, g.bucket_of(dt))),
        ),
{
    lemma_append_latest_bucket(before, after, dt, datum, g);
    let latest = latest_bucket(after.raw_points(), g);
    assert(g.bucket_of(dt).at_or_before(latest)) by {
        assert(after.raw().contains_key(dt));
    }
    assert(latest.at_or_before(g.bucket_of(dt)));
    assert(latest == g.bucket_of(dt));
}

/// The first point of a series gives each resolution one entry, that of the
/// point's own bucket, which counts one point and has it as average,
/// minimum and maximum.
pub proof fn lemma_first_point(
    before: TimeSeriesRow,
    after: TimeSeriesRow,
    dt: Instant,
    datum: Point,
    g: Granularity,
    now: Instant,
)
    requires
        before.wf(),
        before.raw() == Map::<Instant, Point>::empty(),
        dt.wf(),
        after.appended(&before, dt, datum),
        g.bucket_of(now) == g.bucket_of(dt),
    ensures
        after.current(g, now) == Some(
            Statistics { average: datum, count: 1, max: Some(datum), min: Some(datum) },
        ),
{
    lemma_append_then_current(before, after, dt, datum, g, now);
    after.lemma_raw_points();
    let single = seq![(dt, datum)];
    assert(as_map(single) =~= after.raw()) by {
        assert(single[0].0 == dt);
        assert forall|k: Instant| has_key(single, k) implies k == dt by {
            assert(index_of(single, k) == 0);
        }
    }
    lemma_entries_unique(after.raw_points(), single);
    let in_bucket = |p: (Instant, Point)| g.bucket_of(p.0) == g.bucket_of(dt);
    assert(single.filter(in_bucket) == single) by {
        reveal_with_fuel(Seq::filter, 2);
        assert(single.drop_last().filter(in_bucket).push(single.last()) =~= single);
    }
    assert(bucket_values(single, g, g.bucket_of(dt)) =~= seq![datum]);
    lemma_single_point(datum);
}

/// Crossing a bucket boundary freezes the bucket left behind: an append of
/// a point that falls into a later bucket leaves the entry as it was.
pub proof fn lemma_append_freezes_earlier_buckets(
    before: TimeSeriesRow,
    after: TimeSeriesRow,
    dt: Instant,
    datum: Point,
    g: Granularity,
    bucket: Instant,
)
    requires
        before.wf(),
        dt.wf(),
        after.appended(&before, dt, datum),
        bucket.before(g.bucket_of(dt)),
    ensures
        lookup(after.rollups(g), bucket) == lookup(before.rollups(g), bucket),
{
    lemma_append_latest_bucket(before, after, dt, datum, g);
    assert(after.raw().contains_key(dt));
}

/// Retention is idempotent: a second run as of the same moment changes
/// nothing.
pub proof fn lemma_retention_idempotent(
    before: TimeSeriesRow,
    once: TimeSeriesRow,
    twice: TimeSeriesRow,
    now: Instant,
)
    requires
        once.retained(&before, now),
        twice.retained(&once, now),
    ensures
        twice.raw() == once.raw(),
        twice.raw_points() == once.raw_points(),
        forall|g: Granularity| #[trigger] twice.rollups(g) == once.rollups(g),
{
    assert(twice.raw() =~= once.raw());
    lemma_raw_points_determined(twice, once);
}

} // verus!
