//! The state that the agent keeps between polls: the latest reading, the
//! inventory, and the bundle of the four metric series.

use crate::bucket::Granularity;
use crate::envoy_api::GridState;
use crate::instant::Instant;
use crate::statistics::{Point, Statistics};
use crate::time_series::{lemma_first_point, TimeSeriesRow, TimeSeriesSummary};
use vstd::prelude::*;

verus! {

/// The tracked metrics, one series each.
#[derive(Clone, Copy, Debug, PartialEq, Eq, Structural)]
pub enum Metric {
    /// Power generated by the panels.
    Pv,
    /// Power flowing out of or into the batteries.
    Storage,
    /// Power consumed by the site.
    Load,
    /// Power drawn from or fed into the grid.
    Grid,
}

/// The latest reading of the system.
#[derive(Clone, Copy, Debug)]
pub struct SystemState {
    pub last_update: Option<Instant>,
    pub battery_soc: u32,
    pub pv_mw: i64,
    pub storage_mw: i64,
    pub grid_mw: i64,
    pub load_mw: i64,
    pub production_mwh_today: i64,
    pub consumption_mwh_today: i64,
}

impl SystemState {
    /// The reading of metric `m`.
    pub open spec fn value_of(&self, m: Metric) -> Point {
        match m {
            Metric::Pv => self.pv_mw,
            Metric::Storage => self.storage_mw,
            Metric::Load => self.load_mw,
            Metric::Grid => self.grid_mw,
        }
    }
}

impl Default for SystemState {
    /// A reading that was never updated: no instant, all values zero.
    fn default() -> (r: Self)
        ensures
            r.last_update is None,
            r.battery_soc == 0,
            forall|m: Metric| #[trigger] r.value_of(m) == 0,
            r.production_mwh_today == 0,
            r.consumption_mwh_today == 0,
    {
        SystemState {
            last_update: None,
            battery_soc: 0,
            pv_mw: 0,
            storage_mw: 0,
            grid_mw: 0,
            load_mw: 0,
            production_mwh_today: 0,
            consumption_mwh_today: 0,
        }
    }
}

/// What the site has installed.
#[derive(Clone, Copy, Debug)]
pub struct Inventory {
    /// Capacity of all batteries together.
    pub battery_capacity: u32,
    /// Number of batteries.
    pub num_batteries: usize,
    /// State of the grid connection, where a device reports one.
    pub grid_state: Option<GridState>,
}

impl Default for Inventory {
    /// An inventory without batteries and without a known grid state.
    fn default() -> (r: Self)
        ensures
            r.battery_capacity == 0,
            r.num_batteries == 0,
            r.grid_state is None,
    {
        Inventory { battery_capacity: 0, num_batteries: 0, grid_state: None }
    }
}

/// The series of all tracked metrics, updated and queried together.
#[derive(Debug)]
pub struct TimeSeriesData {
    pv_mw: TimeSeriesRow,
    storage_mw: TimeSeriesRow,
    load_mw: TimeSeriesRow,
    grid_mw: TimeSeriesRow,
}

/// The summaries of all tracked metrics.
#[derive(Debug)]
pub struct HistoryResponse {
    pub pv_mw: TimeSeriesSummary,
    pub grid_mw: TimeSeriesSummary,
    pub load_mw: TimeSeriesSummary,
    pub storage_mw: TimeSeriesSummary,
}

impl HistoryResponse {
    /// The summary of metric `m`.
    pub open spec fn summary_of(&self, m: Metric) -> TimeSeriesSummary {
        match m {
            Metric::Pv => self.pv_mw,
            Metric::Storage => self.storage_mw,
            Metric::Load => self.load_mw,
            Metric::Grid => self.grid_mw,
        }
    }
}

impl TimeSeriesData {
    /// The series of metric `m`.
    pub closed spec fn series(&self, m: Metric) -> TimeSeriesRow {
        match m {
            Metric::Pv => self.pv_mw,
            Metric::Storage => self.storage_mw,
            Metric::Load => self.load_mw,
            Metric::Grid => self.grid_mw,
        }
    }

    /// Every series is well formed.
    pub open spec fn wf(&self) -> bool {
        &&& self.series(Metric::Pv).wf()
        &&& self.series(Metric::Storage).wf()
        &&& self.series(Metric::Load).wf()
        &&& self.series(Metric::Grid).wf()
    }

    /// A bundle of empty series.
    pub fn new() -> (r: Self)
        ensures
            r.wf(),
            forall|m: Metric| (#[trigger] r.series(m)).raw() == Map::<Instant, Point>::empty(),
            forall|m: Metric, g: Granularity|
                (#[trigger] r.series(m).rollups(g)) == Map::<Instant, Statistics>::empty(),
    {
        TimeSeriesData {
            pv_mw: TimeSeriesRow::new(),
            storage_mw: TimeSeriesRow::new(),
            load_mw: TimeSeriesRow::new(),
            grid_mw: TimeSeriesRow::new(),
        }
    }

    /// The series of metric `m`.
    pub fn row(&self, m: Metric) -> (r: &TimeSeriesRow)
        ensures
            *r == self.series(m),
    {
        match m {
            Metric::Pv => &self.pv_mw,
            Metric::Storage => &self.storage_mw,
            Metric::Load => &self.load_mw,
            Metric::Grid => &self.grid_mw,
        }
    }

    /// This bundle is `before` after it was offered the reading `new_state`:
    /// a reading with an instant is appended to every series at that
    /// instant, each metric with its own value; a reading without an instant
    /// leaves every series as it was.
    pub open spec fn updated(&self, before: &TimeSeriesData, new_state: &SystemState) -> bool {
        &&& self.wf()
        &&& match new_state.last_update {
            Some(dt) => forall|m: Metric|
                (#[trigger] self.series(m)).appended(&before.series(m), dt, new_state.value_of(m)),
            None => forall|m: Metric| #[trigger] self.series(m) == before.series(m),
        }
    }

    /// Takes in one reading: appends the value of every metric to its
    /// series at the instant of the reading. A reading without an instant
    /// changes nothing. Returns whether the reading was taken in.
    pub fn update_state(&mut self, new_state: &SystemState) -> (taken: bool)
        requires
            old(self).wf(),
            new_state.last_update matches Some(dt) ==> dt.wf(),
        ensures
            taken == new_state.last_update is Some,
            final(self).updated(old(self), new_state),
    {
        match new_state.last_update {
            None => false,
            Some(dt) => {
                self.pv_mw.append(dt, new_state.pv_mw);
                self.grid_mw.append(dt, new_state.grid_mw);
                self.load_mw.append(dt, new_state.load_mw);
                self.storage_mw.append(dt, new_state.storage_mw);
                true
            },
        }
    }

    /// The summaries of all series as of `now`.
    pub fn history_at(&self, now: Instant) -> (r: HistoryResponse)
        requires
            self.wf(),
            now.wf(),
        ensures
            forall|m: Metric| (#[trigger] r.summary_of(m)).describes(&self.series(m), now),
    {
        HistoryResponse {
            pv_mw: self.pv_mw.summary_at(now),
            grid_mw: self.grid_mw.summary_at(now),
            load_mw: self.load_mw.summary_at(now),
            storage_mw: self.storage_mw.summary_at(now),
        }
    }

    /// The summaries of all series, each as of the time at which it was
    /// taken.
    pub fn history(&self) -> (r: HistoryResponse)
        requires
            self.wf(),
        ensures
            forall|m: Metric|
                exists|now: Instant|
                    now.wf() && (#[trigger] r.summary_of(m)).describes(&self.series(m), now),
    {
        HistoryResponse {
            pv_mw: self.pv_mw.summary(),
            grid_mw: self.grid_mw.summary(),
            load_mw: self.load_mw.summary(),
            storage_mw: self.storage_mw.summary(),
        }
    }

    /// Runs retention on every series as of `now`.
    pub fn maintain_at(&mut self, now: Instant)
        requires
            old(self).wf(),
            now.wf(),
        ensures
            final(self).wf(),
            forall|m: Metric| (#[trigger] final(self).series(m)).retained(&old(self).series(m), now),
    {
        self.pv_mw.maintain_at(now);
        self.grid_mw.maintain_at(now);
        self.load_mw.maintain_at(now);
        self.storage_mw.maintain_at(now);
    }

    /// Runs retention on every series, each as of the time at which its turn
    /// comes.
    pub fn maintain(&mut self)
        requires
            old(self).wf(),
        ensures
            final(self).wf(),
            forall|m: Metric|
                exists|now: Instant|
                    now.wf() && (#[trigger] final(self).series(m)).retained(
                        &old(self).series(m),
                        now,
                    ),
    {
        self.pv_mw.maintain();
        self.grid_mw.maintain();
        self.load_mw.maintain();
        self.storage_mw.maintain();
    }
}

impl Default for TimeSeriesData {
    /// A bundle of empty series.
    fn default() -> (r: Self)
        ensures
            r.wf(),
            forall|m: Metric| (#[trigger] r.series(m)).raw() == Map::<Instant, Point>::empty(),
            forall|m: Metric, g: Granularity|
                (#[trigger] r.series(m).rollups(g)) == Map::<Instant, Statistics>::empty(),
    {
        TimeSeriesData::new()
    }
}

/// A reading reaches all series or none: once a reading with an instant was
/// taken in, every series holds the value of its metric at that instant.
pub proof fn lemma_reading_reaches_every_series(
    before: TimeSeriesData,
    after: TimeSeriesData,
    reading: SystemState,
    m: Metric,
)
    requires
        before.wf(),
        after.updated(&before, &reading),
    ensures
        reading.last_update matches Some(dt) ==> after.series(m).raw().contains_key(dt)
            && after.series(m).raw()[dt] == reading.value_of(m),
        reading.last_update is None ==> after.series(m) == before.series(m),
{
}

/// The first reading that a bundle of empty series takes in shows in the
/// history of every metric: while the hour, day or week of the reading is
/// the current one, its entry counts one point and has the reading's value
/// as average, minimum and maximum.
pub proof fn lemma_first_reading(
    before: TimeSeriesData,
    after: TimeSeriesData,
    reading: SystemState,
    history: HistoryResponse,
    now: Instant,
    m: Metric,
    g: Granularity,
)
    requires
        before.wf(),
        before.series(m).raw() == Map::<Instant, Point>::empty(),
        reading.last_update matches Some(dt) && dt.wf() && g.bucket_of(now) == g.bucket_of(dt),
        after.updated(&before, &reading),
        history.summary_of(m).describes(&after.series(m), now),
    ensures
        history.summary_of(m).of(g) == Some(
            Statistics {
                average: reading.value_of(m),
                count: 1,
                max: Some(reading.value_of(m)),
                min: Some(reading.value_of(m)),
            },
        ),
{
    let dt = reading.last_update->0;
    lemma_first_point(before.series(m), after.series(m), dt, reading.value_of(m), g, now);
}

} // verus!
