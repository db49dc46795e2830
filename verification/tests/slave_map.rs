use sequent_gateway::databank::{COIL_COUNT, DISCRETE_INPUT_COUNT, HOLDING_REGISTER_COUNT};
use sequent_gateway::slave_map::{RegType, SlaveMap, IND_COIL_COUNT, IND_COIL_OFFSET, RELAY_COIL_COUNT};

#[test]
fn single_slave_accepts_any_unit_id() {
    let map = SlaveMap::new(1, 2, true);
    // Any unit ID should resolve in single-slave mode
    for uid in [0, 1, 2, 5, 42, 247] {
        assert!(map.resolve(uid, RegType::Coils).is_some(), "unit {uid} should resolve");
    }
}

#[test]
fn single_slave_returns_full_flat_map() {
    let map = SlaveMap::new(1, 2, true);
    let coils = map.resolve(1, RegType::Coils).unwrap();
    assert_eq!(coils.offset, 0);
    assert_eq!(coils.max_count, COIL_COUNT);

    let di = map.resolve(1, RegType::DiscreteInputs).unwrap();
    assert_eq!(di.offset, 0);
    assert_eq!(di.max_count, DISCRETE_INPUT_COUNT);

    let hr = map.resolve(1, RegType::HoldingRegisters).unwrap();
    assert_eq!(hr.offset, 0);
    assert_eq!(hr.max_count, HOLDING_REGISTER_COUNT);
}

#[test]
fn multi_slave_relay_coils() {
    let map = SlaveMap::new(1, 2, false);
    let coils = map.resolve(1, RegType::Coils).unwrap();
    assert_eq!(coils.offset, 0);
    assert_eq!(coils.max_count, RELAY_COIL_COUNT);
}

#[test]
fn multi_slave_relay_has_no_holding_regs() {
    let map = SlaveMap::new(1, 2, false);
    let hr = map.resolve(1, RegType::HoldingRegisters).unwrap();
    assert_eq!(hr.max_count, 0);
}

#[test]
fn multi_slave_ind_coils_offset() {
    let map = SlaveMap::new(1, 2, false);
    let coils = map.resolve(2, RegType::Coils).unwrap();
    assert_eq!(coils.offset, IND_COIL_OFFSET);
    assert_eq!(coils.max_count, IND_COIL_COUNT);
}

#[test]
fn multi_slave_ind_discrete_inputs() {
    let map = SlaveMap::new(1, 2, false);
    let di = map.resolve(2, RegType::DiscreteInputs).unwrap();
    assert_eq!(di.offset, 0);
    assert_eq!(di.max_count, DISCRETE_INPUT_COUNT);
}

#[test]
fn multi_slave_ind_holding_registers() {
    let map = SlaveMap::new(1, 2, false);
    let hr = map.resolve(2, RegType::HoldingRegisters).unwrap();
    assert_eq!(hr.offset, 0);
    assert_eq!(hr.max_count, HOLDING_REGISTER_COUNT);
}

#[test]
fn multi_slave_unknown_unit_returns_none() {
    let map = SlaveMap::new(1, 2, false);
    assert!(map.resolve(3, RegType::Coils).is_none());
    assert!(map.resolve(0, RegType::Coils).is_none());
    assert!(map.resolve(247, RegType::HoldingRegisters).is_none());
}

#[test]
fn custom_slave_ids() {
    let map = SlaveMap::new(10, 20, false);
    assert!(map.resolve(10, RegType::Coils).is_some());
    assert!(map.resolve(20, RegType::Coils).is_some());
    assert!(map.resolve(1, RegType::Coils).is_none());
    assert!(map.resolve(2, RegType::Coils).is_none());
}

#[test]
fn same_ids_route_to_relay_board() {
    let map = SlaveMap::new(3, 3, false);
    let coils = map.resolve(3, RegType::Coils).unwrap();
    assert_eq!(coils.offset, 0);
    assert_eq!(coils.max_count, RELAY_COIL_COUNT);
}
