use envoy_metrics::envoy_api::{
    inventory_from_rows, state_from_responses, CollarDevice, DeviceRef, EnchargeDevice,
    EnergyAggregate, EnergyConsumptionResponse, EnergyProductionResponse, EnergyResponse,
    EnpowerDevice, GridState, InventoryDeviceRow, LivestatusMetersResponse, LivestatusResponse,
    MeterDetails,
};
use envoy_metrics::instant::Instant;

fn battery(capacity: u32) -> EnchargeDevice {
    EnchargeDevice { encharge_capacity: capacity }
}

fn energy(production_today: i64, consumption_today: i64) -> EnergyResponse {
    EnergyResponse {
        production: EnergyProductionResponse {
            envoy: EnergyAggregate {
                watt_hours_today: production_today,
                watt_hours_seven_days: 70,
                watt_hours_lifetime: 700,
                watts_now: 7,
            },
        },
        consumption: EnergyConsumptionResponse {
            envoy: EnergyAggregate {
                watt_hours_today: consumption_today,
                watt_hours_seven_days: 50,
                watt_hours_lifetime: 500,
                watts_now: 5,
            },
        },
    }
}

fn status() -> LivestatusResponse {
    LivestatusResponse {
        meters: LivestatusMetersResponse {
            soc: 87,
            last_update: Instant::new(1_710_327_510, 0).unwrap(),
            pv: MeterDetails { aggregate_mw: 1_500_000 },
            storage: MeterDetails { aggregate_mw: -200_000 },
            grid: MeterDetails { aggregate_mw: 30_000 },
            load: MeterDetails { aggregate_mw: 1_330_000 },
        },
    }
}

#[test]
fn inventory_of_no_rows() {
    let inventory = inventory_from_rows(&vec![]).unwrap();
    assert_eq!(inventory.num_batteries, 0);
    assert_eq!(inventory.battery_capacity, 0);
    assert_eq!(inventory.grid_state, None);
}

#[test]
fn inventory_counts_batteries_and_adds_capacities() {
    let rows = vec![
        InventoryDeviceRow::Encharge(vec![battery(3_500), battery(3_500), battery(10_080)]),
        InventoryDeviceRow::Enpower(vec![EnpowerDevice {}]),
        InventoryDeviceRow::Collar(vec![CollarDevice { grid_state: GridState::MultiModeOnGrid }]),
        InventoryDeviceRow::Encharge(vec![battery(20)]),
    ];
    let inventory = inventory_from_rows(&rows).unwrap();
    assert_eq!(inventory.num_batteries, 4);
    assert_eq!(inventory.battery_capacity, 17_100);
    assert_eq!(inventory.grid_state, Some(GridState::MultiModeOnGrid));
}

#[test]
fn inventory_takes_the_first_grid_state_reported() {
    let rows = vec![
        InventoryDeviceRow::Collar(vec![]),
        InventoryDeviceRow::Collar(vec![
            CollarDevice { grid_state: GridState::OffGrid },
            CollarDevice { grid_state: GridState::OnGrid },
        ]),
        InventoryDeviceRow::Collar(vec![CollarDevice { grid_state: GridState::MultiModeOffGrid }]),
    ];
    let inventory = inventory_from_rows(&rows).unwrap();
    assert_eq!(inventory.grid_state, Some(GridState::OffGrid));
    assert_eq!(inventory.num_batteries, 0);
    let rows = vec![InventoryDeviceRow::Collar(vec![]), InventoryDeviceRow::Enpower(vec![])];
    assert_eq!(inventory_from_rows(&rows).unwrap().grid_state, None);
}

#[test]
fn inventory_capacity_at_and_beyond_the_limit() {
    let rows = vec![
        InventoryDeviceRow::Encharge(vec![battery(u32::MAX - 1)]),
        InventoryDeviceRow::Encharge(vec![battery(1)]),
    ];
    let inventory = inventory_from_rows(&rows).unwrap();
    assert_eq!(inventory.battery_capacity, u32::MAX);
    assert_eq!(inventory.num_batteries, 2);
    let rows = vec![
        InventoryDeviceRow::Encharge(vec![battery(u32::MAX - 1), battery(1)]),
        InventoryDeviceRow::Collar(vec![CollarDevice { grid_state: GridState::OnGrid }]),
        InventoryDeviceRow::Encharge(vec![battery(1)]),
    ];
    assert!(inventory_from_rows(&rows).is_none());
    let rows = vec![InventoryDeviceRow::Encharge(vec![battery(u32::MAX), battery(u32::MAX)])];
    assert!(inventory_from_rows(&rows).is_none());
}

#[test]
fn devices_lists_the_row_in_order() {
    let row = InventoryDeviceRow::Encharge(vec![battery(1), battery(2)]);
    let devices = row.devices();
    assert_eq!(devices.len(), 2);
    assert!(matches!(devices[0], DeviceRef::Encharge(d) if d.encharge_capacity == 1));
    assert!(matches!(devices[1], DeviceRef::Encharge(d) if d.encharge_capacity == 2));
    let row = InventoryDeviceRow::Enpower(vec![EnpowerDevice {}]);
    let devices = row.devices();
    assert_eq!(devices.len(), 1);
    assert!(matches!(devices[0], DeviceRef::Enpower(_)));
    let row = InventoryDeviceRow::Collar(vec![
        CollarDevice { grid_state: GridState::OnGrid },
        CollarDevice { grid_state: GridState::OffGrid },
        CollarDevice { grid_state: GridState::MultiModeOnGrid },
    ]);
    let devices = row.devices();
    assert_eq!(devices.len(), 3);
    assert!(matches!(devices[1], DeviceRef::Collar(d) if d.grid_state == GridState::OffGrid));
    assert!(matches!(devices[2], DeviceRef::Collar(d) if d.grid_state == GridState::MultiModeOnGrid));
    let row = InventoryDeviceRow::Collar(vec![]);
    assert_eq!(row.devices().len(), 0);
}

#[test]
fn state_takes_the_meters_and_scales_the_counters() {
    let state = state_from_responses(&status(), &energy(12_345, 6_789)).unwrap();
    assert_eq!(state.last_update, Some(Instant::new(1_710_327_510, 0).unwrap()));
    assert_eq!(state.battery_soc, 87);
    assert_eq!(state.pv_mw, 1_500_000);
    assert_eq!(state.storage_mw, -200_000);
    assert_eq!(state.grid_mw, 30_000);
    assert_eq!(state.load_mw, 1_330_000);
    assert_eq!(state.production_mwh_today, 12_345_000);
    assert_eq!(state.consumption_mwh_today, 6_789_000);
}

#[test]
fn state_with_negative_counters() {
    let state = state_from_responses(&status(), &energy(-3, 0)).unwrap();
    assert_eq!(state.production_mwh_today, -3_000);
    assert_eq!(state.consumption_mwh_today, 0);
}

#[test]
fn state_counters_at_and_beyond_the_limit() {
    let largest = i64::MAX / 1000;
    let state = state_from_responses(&status(), &energy(largest, -largest)).unwrap();
    assert_eq!(state.production_mwh_today, largest * 1000);
    assert_eq!(state.consumption_mwh_today, -largest * 1000);
    assert!(state_from_responses(&status(), &energy(largest + 1, 0)).is_none());
    assert!(state_from_responses(&status(), &energy(0, largest + 1)).is_none());
    assert!(state_from_responses(&status(), &energy(i64::MIN, 0)).is_none());
    assert!(state_from_responses(&status(), &energy(0, i64::MIN / 1000 - 1)).is_none());
    assert!(state_from_responses(&status(), &energy(i64::MIN / 1000, 0)).is_some());
}
