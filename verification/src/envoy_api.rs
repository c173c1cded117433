//! What the device's API reports, and what the agent makes of it: the
//! inventory out of the device rows, the system state out of the live
//! status and the energy counters.

use crate::instant::Instant;
use crate::state::{Inventory, SystemState};
use vstd::prelude::*;

verus! {

/// Factor from watt-hours to milliwatt-hours.
pub const MILLI_PER_UNIT: i64 = 1000;

/// One meter of the live status.
#[derive(Clone, Copy, Debug)]
pub struct MeterDetails {
    pub aggregate_mw: i64,
}

/// The meters of the live status, with the state of charge and the instant
/// of the reading.
#[derive(Clone, Copy, Debug)]
pub struct LivestatusMetersResponse {
    pub soc: u32,
    pub last_update: Instant,
    pub pv: MeterDetails,
    pub storage: MeterDetails,
    pub grid: MeterDetails,
    pub load: MeterDetails,
}

/// The live status.
#[derive(Clone, Copy, Debug)]
pub struct LivestatusResponse {
    pub meters: LivestatusMetersResponse,
}

/// Energy counters of one meter, in watt-hours and watts.
#[derive(Clone, Copy, Debug)]
pub struct EnergyAggregate {
    pub watt_hours_today: i64,
    pub watt_hours_seven_days: i64,
    pub watt_hours_lifetime: i64,
    pub watts_now: i64,
}

/// Energy counters of production.
#[derive(Clone, Copy, Debug)]
pub struct EnergyProductionResponse {
    pub envoy: EnergyAggregate,
}

/// Energy counters of consumption.
#[derive(Clone, Copy, Debug)]
pub struct EnergyConsumptionResponse {
    pub envoy: EnergyAggregate,
}

/// Energy counters of production and consumption.
#[derive(Clone, Copy, Debug)]
pub struct EnergyResponse {
    pub production: EnergyProductionResponse,
    pub consumption: EnergyConsumptionResponse,
}

/// A battery.
#[derive(Clone, Copy, Debug)]
pub struct EnchargeDevice {
    pub encharge_capacity: u32,
}

/// A system controller.
#[derive(Clone, Copy, Debug)]
pub struct EnpowerDevice {}

/// State of the grid connection.
#[derive(Clone, Copy, Debug, PartialEq, Eq, Structural)]
pub enum GridState {
    OnGrid,
    OffGrid,
    MultiModeOnGrid,
    MultiModeOffGrid,
}

/// A grid-tie device.
#[derive(Clone, Copy, Debug)]
pub struct CollarDevice {
    pub grid_state: GridState,
}

/// One row of the inventory: the devices of one kind.
#[derive(Debug)]
pub enum InventoryDeviceRow {
    Encharge(Vec<EnchargeDevice>),
    Enpower(Vec<EnpowerDevice>),
    Collar(Vec<CollarDevice>),
}

/// One device of a row, whatever its kind.
#[derive(Clone, Copy, Debug)]
pub enum DeviceRef<'a> {
    Encharge(&'a EnchargeDevice),
    Enpower(&'a EnpowerDevice),
    Collar(&'a CollarDevice),
}

impl InventoryDeviceRow {
    /// Number of devices in the row.
    pub open spec fn device_count(&self) -> nat {
        match self {
            InventoryDeviceRow::Encharge(devices) => devices@.len(),
            InventoryDeviceRow::Enpower(devices) => devices@.len(),
            InventoryDeviceRow::Collar(devices) => devices@.len(),
        }
    }

    /// Number of batteries in the row.
    pub open spec fn battery_count(&self) -> nat {
        match self {
            InventoryDeviceRow::Encharge(devices) => devices@.len(),
            _ => 0,
        }
    }

    /// Capacity of the batteries in the row.
    pub open spec fn battery_capacity(&self) -> nat {
        match self {
            InventoryDeviceRow::Encharge(devices) => capacity_of(devices@),
            _ => 0,
        }
    }

    /// Grid state of the first device of a row of grid-tie devices.
    pub open spec fn grid_state(&self) -> Option<GridState> {
        match self {
            InventoryDeviceRow::Collar(devices) => if devices@.len() > 0 {
                Some(devices@[0].grid_state)
            } else {
                None
            },
            _ => None,
        }
    }

    /// The device at position `i` of the row.
    pub open spec fn device_at(&self, i: int) -> DeviceRef<'_>
        recommends
            0 <= i < self.device_count(),
    {
        match self {
            InventoryDeviceRow::Encharge(devices) => DeviceRef::Encharge(&devices@[i]),
            InventoryDeviceRow::Enpower(devices) => DeviceRef::Enpower(&devices@[i]),
            InventoryDeviceRow::Collar(devices) => DeviceRef::Collar(&devices@[i]),
        }
    }

    /// The devices of the row in their order, for printing.
    pub fn devices(&self) -> (r: Vec<DeviceRef<'_>>)
        ensures
            r@.len() == self.device_count(),
            forall|i: int| 0 <= i < r@.len() ==> #[trigger] r@[i] == self.device_at(i),
    {
        let mut out: Vec<DeviceRef<'_>> = Vec::new();
        let mut i: usize = 0;
        match self {
            InventoryDeviceRow::Encharge(devices) => {
                while i < devices.len()
                    invariant
                        *self == InventoryDeviceRow::Encharge(*devices),
                        i <= devices@.len(),
                        out@.len() == i,
                        forall|j: int| 0 <= j < i ==> #[trigger] out@[j] == self.device_at(j),
                    decreases devices@.len() - i,
                {
                    out.push(DeviceRef::Encharge(&devices[i]));
                    i = i + 1;
                }
            },
            InventoryDeviceRow::Enpower(devices) => {
                while i < devices.len()
                    invariant
                        *self == InventoryDeviceRow::Enpower(*devices),
                        i <= devices@.len(),
                        out@.len() == i,
                        forall|j: int| 0 <= j < i ==> #[trigger] out@[j] == self.device_at(j),
                    decreases devices@.len() - i,
                {
                    out.push(DeviceRef::Enpower(&devices[i]));
                    i = i + 1;
                }
            },
            InventoryDeviceRow::Collar(devices) => {
                while i < devices.len()
                    invariant
                        *self == InventoryDeviceRow::Collar(*devices),
                        i <= devices@.len(),
                        out@.len() == i,
                        forall|j: int| 0 <= j < i ==> #[trigger] out@[j] == self.device_at(j),
                    decreases devices@.len() - i,
                {
                    out.push(DeviceRef::Collar(&devices[i]));
                    i = i + 1;
                }
            },
        }
        out
    }
}

/// Capacity of the batteries together.
pub open spec fn capacity_of(devices: Seq<EnchargeDevice>) -> nat
    decreases devices.len(),
{
    if devices.len() == 0 {
        0
    } else {
        capacity_of(devices.drop_last()) + devices.last().encharge_capacity as nat
    }
}

/// Number of batteries in all rows.
pub open spec fn total_batteries(rows: Seq<InventoryDeviceRow>) -> nat
    decreases rows.len(),
{
    if rows.len() == 0 {
        0
    } else {
        total_batteries(rows.drop_last()) + rows.last().battery_count()
    }
}

/// Capacity of the batteries in all rows.
pub open spec fn total_capacity(rows: Seq<InventoryDeviceRow>) -> nat
    decreases rows.len(),
{
    if rows.len() == 0 {
        0
    } else {
        total_capacity(rows.drop_last()) + rows.last().battery_capacity()
    }
}

/// Grid state that the first row reports that reports one.
pub open spec fn first_grid_state(rows: Seq<InventoryDeviceRow>) -> Option<GridState>
    decreases rows.len(),
{
    if rows.len() == 0 {
        None
    } else {
        match first_grid_state(rows.drop_last()) {
            Some(state) => Some(state),
            None => rows.last().grid_state(),
        }
    }
}

/// Capacity of the batteries of one row.
fn row_capacity(devices: &Vec<EnchargeDevice>) -> (r: u128)
    ensures
        r == capacity_of(devices@),
        r <= devices@.len() * 0xffff_ffff,
{
    let mut total: u128 = 0;
    let mut i: usize = 0;
    while i < devices.len()
        invariant
            i <= devices@.len(),
            total == capacity_of(devices@.take(i as int)),
            total <= i * 0xffff_ffff,
        decreases devices@.len() - i,
    {
        proof {
            assert(devices@.take(i + 1).drop_last() =~= devices@.take(i as int));
        }
        total = total + devices[i].encharge_capacity as u128;
        i = i + 1;
    }
    proof {
        assert(devices@.take(devices@.len() as int) =~= devices@);
    }
    total
}

/// The totals over the first rows never exceed the totals over all rows.
proof fn lemma_totals_grow(rows: Seq<InventoryDeviceRow>, i: int)
    requires
        0 <= i <= rows.len(),
    ensures
        total_batteries(rows.take(i)) <= total_batteries(rows),
        total_capacity(rows.take(i)) <= total_capacity(rows),
    decreases rows.len(),
{
    if i < rows.len() {
        lemma_totals_grow(rows.drop_last(), i);
        assert(rows.drop_last().take(i) =~= rows.take(i));
    } else {
        assert(rows.take(i) =~= rows);
    }
}

/// The inventory that the device rows amount to: the batteries counted and
/// their capacities added up over all rows, and the grid state of the first
/// row that reports one. There is none where a total does not fit its
/// field.
pub fn inventory_from_rows(rows: &Vec<InventoryDeviceRow>) -> (r: Option<Inventory>)
    ensures
        r == (if total_batteries(rows@) <= usize::MAX && total_capacity(rows@) <= u32::MAX {
            Some(
                Inventory {
                    battery_capacity: total_capacity(rows@) as u32,
                    num_batteries: total_batteries(rows@) as usize,
                    grid_state: first_grid_state(rows@),
                },
            )
        } else {
            None
        }),
{
    let mut count: u128 = 0;
    let mut capacity: u128 = 0;
    let mut grid_state: Option<GridState> = None;
    let mut i: usize = 0;
    while i < rows.len()
        invariant
            i <= rows@.len(),
            count == total_batteries(rows@.take(i as int)),
            capacity == total_capacity(rows@.take(i as int)),
            grid_state == first_grid_state(rows@.take(i as int)),
            count <= usize::MAX,
            capacity <= u32::MAX,
        decreases rows@.len() - i,
    {
        proof {
            assert(rows@.take(i + 1).drop_last() =~= rows@.take(i as int));
            lemma_totals_grow(rows@, i + 1);
        }
        match &rows[i] {
            InventoryDeviceRow::Encharge(devices) => {
                let in_row: u128 = row_capacity(devices);
                let len: usize = devices.len();
                count = count + len as u128;
                capacity = capacity + in_row;
                if count > usize::MAX as u128 || capacity > u32::MAX as u128 {
                    return None;
                }
            },
            InventoryDeviceRow::Enpower(_) => {},
            InventoryDeviceRow::Collar(devices) => {
                if grid_state.is_none() && devices.len() > 0 {
                    grid_state = Some(devices[0].grid_state);
                }
            },
        }
        i = i + 1;
    }
    proof {
        assert(rows@.take(rows@.len() as int) =~= rows@);
    }
    Some(Inventory { battery_capacity: capacity as u32, num_batteries: count as usize, grid_state })
}

/// A counter in watt-hours as milliwatt-hours.
pub open spec fn milli(watt_hours: i64) -> int {
    watt_hours * MILLI_PER_UNIT
}

/// The system state that a live status and the energy counters amount to.
/// There is none where a counter in milliwatt-hours does not fit its field.
pub fn state_from_responses(status: &LivestatusResponse, energy: &EnergyResponse) -> (r: Option<
    SystemState,
>)
    ensures
        r == (if i64::MIN <= milli(energy.production.envoy.watt_hours_today) <= i64::MAX && i64::MIN
            <= milli(energy.consumption.envoy.watt_hours_today) <= i64::MAX {
            Some(
                SystemState {
                    last_update: Some(status.meters.last_update),
                    battery_soc: status.meters.soc,
                    pv_mw: status.meters.pv.aggregate_mw,
                    storage_mw: status.meters.storage.aggregate_mw,
                    grid_mw: status.meters.grid.aggregate_mw,
                    load_mw: status.meters.load.aggregate_mw,
                    production_mwh_today: milli(energy.production.envoy.watt_hours_today) as i64,
                    consumption_mwh_today: milli(energy.consumption.envoy.watt_hours_today) as i64,
                },
            )
        } else {
            None
        }),
{
    let factor: i128 = MILLI_PER_UNIT as i128;
    let production: i128 = energy.production.envoy.watt_hours_today as i128 * factor;
    let consumption: i128 = energy.consumption.envoy.watt_hours_today as i128 * factor;
    if i64::MIN as i128 <= production && production <= i64::MAX as i128 && i64::MIN as i128
        <= consumption && consumption <= i64::MAX as i128 {
        Some(
            SystemState {
                last_update: Some(status.meters.last_update),
                battery_soc: status.meters.soc,
                pv_mw: status.meters.pv.aggregate_mw,
                storage_mw: status.meters.storage.aggregate_mw,
                grid_mw: status.meters.grid.aggregate_mw,
                load_mw: status.meters.load.aggregate_mw,
                production_mwh_today: production as i64,
                consumption_mwh_today: consumption as i64,
            },
        )
    } else {
        None
    }
}

} // verus!
