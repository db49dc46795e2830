use std::cell::RefCell;
use std::collections::VecDeque;
use std::rc::Rc;

use sequent_gateway::board_def::{
    AddressConfig, BoardDef, BoardInfo, ChannelConfig, IoGroup, RegisterMap,
};
use sequent_gateway::databank::DataBank;
use sequent_gateway::hal::driver::{
    decode_bitmask, derive_capabilities, layout_supported, scale_value, set_port_bit,
    unremap_bits, GenericBoard, I2cBus,
};
use sequent_gateway::hal::traits::{BoardCapability, BoardError, SequentBoard};

/// A bus that logs every write and answers reads from a queue
/// (`None` = a failed read); writes fail while `fail_writes` is set.
#[derive(Clone)]
struct MockBus {
    log: Rc<RefCell<Vec<Vec<u8>>>>,
    reads: Rc<RefCell<VecDeque<Option<Vec<u8>>>>>,
    fail_writes: Rc<RefCell<bool>>,
}

impl MockBus {
    fn new() -> Self {
        MockBus {
            log: Rc::new(RefCell::new(Vec::new())),
            reads: Rc::new(RefCell::new(VecDeque::new())),
            fail_writes: Rc::new(RefCell::new(false)),
        }
    }
    fn answer(&self, bytes: &[u8]) {
        self.reads.borrow_mut().push_back(Some(bytes.to_vec()));
    }
    fn fail_next_read(&self) {
        self.reads.borrow_mut().push_back(None);
    }
    fn take_log(&self) -> Vec<Vec<u8>> {
        std::mem::take(&mut *self.log.borrow_mut())
    }
}

impl I2cBus for MockBus {
    fn write(&mut self, data: &[u8]) -> Result<(), BoardError> {
        if *self.fail_writes.borrow() {
            return Err(BoardError { message: "nack".into() });
        }
        self.log.borrow_mut().push(data.to_vec());
        Ok(())
    }
    fn read(&mut self, buf: &mut [u8]) -> Result<(), BoardError> {
        match self.reads.borrow_mut().pop_front() {
            Some(Some(bytes)) => {
                buf.copy_from_slice(&bytes[..buf.len()]);
                Ok(())
            }
            _ => Err(BoardError { message: "timeout".into() }),
        }
    }
}

fn group(
    name: &str,
    direction: &str,
    op: &str,
    register: Option<u8>,
    set_clr: Option<(u8, u8)>,
    channels: usize,
    scales: (u32, u32),
    region: &str,
    offset: usize,
) -> IoGroup {
    IoGroup {
        name: name.into(),
        direction: direction.into(),
        op: op.into(),
        register,
        register_set: set_clr.map(|p| p.0),
        register_clr: set_clr.map(|p| p.1),
        channels,
        i2c_scale: scales.0,
        modbus_scale: scales.1,
        modbus_region: region.into(),
        modbus_offset: offset,
        bit_remap: None,
    }
}

fn mixed_def() -> BoardDef {
    BoardDef {
        board: BoardInfo { name: "Mixed".into(), protocol: "sequent_mcu".into() },
        address: AddressConfig { base: 0x50, mode: "direct".into() },
        channels: ChannelConfig {
            opto_inputs: Some(8),
            analog_0_10v_inputs: Some(2),
            od_outputs: Some(2),
            analog_0_10v_outputs: Some(1),
            ..Default::default()
        },
        registers: RegisterMap::default(),
        pca9535: None,
        io_groups: vec![
            group("Opto", "input", "read_u8_bitmask", Some(0x03), None, 8, (1, 1), "discrete_input", 0),
            group("0-10V in", "input", "read_u16_le", Some(0x1C), None, 2, (1000, 100), "holding_register", 10),
            group("OD", "output", "write_set_clr", None, Some((0x01, 0x02)), 2, (1, 1), "coil", 16),
            group("0-10V out", "output", "write_u16_le", Some(0x04), None, 1, (1000, 100), "holding_register", 16),
        ],
    }
}

#[test]
fn scale_value_saturates_and_handles_zero() {
    assert_eq!(scale_value(1000, 100, 1000), 100);
    assert_eq!(scale_value(250, 1000, 100), 2500);
    assert_eq!(scale_value(65535, 1000, 1), u16::MAX);
    assert_eq!(scale_value(5, 3, 0), u16::MAX);
    assert_eq!(scale_value(0, 3, 0), 0);
    assert_eq!(scale_value(7, 1, 2), 3);
}

#[test]
fn decode_bitmask_regions() {
    let mut db = DataBank::new();
    decode_bitmask(0b1010_0101, 8, 8, 0, "discrete_input", &mut db);
    assert_eq!(db.discrete_inputs, [true, false, true, false, false, true, false, true]);
    decode_bitmask(0xFFFF, 16, 4, 18, "coil", &mut db);
    assert!(db.coils[18] && db.coils[19]);
    assert!(!db.coils[17]);
    let before = db.coils;
    decode_bitmask(0xFFFF, 16, 16, 0, "holding_register", &mut db);
    assert_eq!(db.coils, before);
}

#[test]
fn unremap_and_port_bits() {
    let remap: Vec<u8> = (0..16u8).rev().collect();
    assert_eq!(unremap_bits(0x8000, &remap), 0x0001);
    assert_eq!(unremap_bits(0x0001, &remap), 0x8000);
    assert_eq!(unremap_bits(0xFFFF, &remap[..3]), 0b111);
    assert_eq!(set_port_bit(0x0000, 15, true), 0x8000);
    assert_eq!(set_port_bit(0xFFFF, 0, false), 0xFFFE);
}

#[test]
fn capabilities_follow_channel_counts() {
    let def = mixed_def();
    assert_eq!(
        derive_capabilities(&def.channels),
        vec![
            BoardCapability::DiscreteInputs,
            BoardCapability::DiscreteOutputs,
            BoardCapability::AnalogInputs,
            BoardCapability::AnalogOutputs
        ]
    );
    let relay = BoardDef::default_relay16();
    assert_eq!(derive_capabilities(&relay.channels), vec![BoardCapability::Relays]);
}

#[test]
fn relay16_init_write_and_read_back() {
    let def = BoardDef::default_relay16();
    assert!(layout_supported(&def));
    let bus = MockBus::new();
    bus.answer(&[0xFF, 0xFF]); // port configuration: all inputs
    let mut board = GenericBoard::new(bus.clone(), 0, &def).ok().unwrap();
    assert_eq!(bus.take_log(), vec![vec![0x06], vec![0x02, 0, 0], vec![0x06, 0, 0]]);
    assert_eq!(board.name(), "Sequent 16-Relay HAT");
    assert_eq!(board.relay_count(), 16);
    assert!(board.has_capability(BoardCapability::Relays));

    let mut db = DataBank::new();
    db.coils[0] = true; // relay 1 → bit 15
    bus.answer(&[0x00, 0x00]); // current port value
    board.apply_outputs(&db).ok().unwrap();
    assert_eq!(bus.take_log(), vec![vec![0x02], vec![0x02, 0x00, 0x80]]);
    assert_eq!(board.expected_relay_bitmask(), 0x0001);
    assert!(board.has_confirmed_relay(0));

    // Nothing changed: no bus traffic.
    board.apply_outputs(&db).ok().unwrap();
    assert!(bus.take_log().is_empty());

    bus.answer(&[0x00, 0x80]);
    assert_eq!(board.read_relay_state().ok(), Some(0x0001));
    assert_eq!(bus.take_log(), vec![vec![0x02]]);

    board.invalidate_relay(0);
    assert!(!board.has_confirmed_relay(0));
}

#[test]
fn pca_init_skipped_when_outputs_configured() {
    let def = BoardDef::default_relay16();
    let bus = MockBus::new();
    bus.answer(&[0x00, 0x00]);
    assert!(GenericBoard::new(bus.clone(), 0, &def).is_ok());
    assert_eq!(bus.take_log(), vec![vec![0x06]]);
}

#[test]
fn pca_init_failure_is_an_error() {
    let def = BoardDef::default_relay16();
    let bus = MockBus::new();
    bus.fail_next_read();
    let r = GenericBoard::new(bus.clone(), 0, &def);
    match r {
        Err(e) => assert!(e.message.starts_with("PCA9535: read config register")),
        Ok(_) => panic!("expected an error"),
    }
}

#[test]
fn mixed_board_poll_inputs() {
    let def = mixed_def();
    assert!(layout_supported(&def));
    let bus = MockBus::new();
    let mut board = GenericBoard::new(bus.clone(), 0, &def).ok().unwrap();
    assert!(bus.take_log().is_empty());

    let mut db = DataBank::new();
    db.holding_registers[11] = 77;
    bus.answer(&[0b0000_0101]); // opto
    bus.answer(&[0xE8, 0x03]); // 1000 mV on channel 1
    bus.fail_next_read(); // channel 2 fails and is skipped
    board.poll_inputs(&mut db).ok().unwrap();
    assert_eq!(bus.take_log(), vec![vec![0x03], vec![0x1C], vec![0x1E]]);
    assert!(db.discrete_inputs[0] && db.discrete_inputs[2]);
    assert!(!db.discrete_inputs[1]);
    assert_eq!(db.holding_registers[10], 100);
    assert_eq!(db.holding_registers[11], 77);
}

#[test]
fn failed_bitmask_read_ends_poll() {
    let def = mixed_def();
    let bus = MockBus::new();
    let mut board = GenericBoard::new(bus.clone(), 0, &def).ok().unwrap();
    let mut db = DataBank::new();
    bus.fail_next_read();
    assert!(board.poll_inputs(&mut db).is_err());
    assert_eq!(bus.take_log(), vec![vec![0x03]]);
}

#[test]
fn mixed_board_apply_outputs() {
    let def = mixed_def();
    let bus = MockBus::new();
    let mut board = GenericBoard::new(bus.clone(), 0, &def).ok().unwrap();
    let mut db = DataBank::new();
    db.coils[16] = true;
    db.holding_registers[16] = 250; // 2.50 V
    board.apply_outputs(&db).ok().unwrap();
    assert_eq!(
        bus.take_log(),
        vec![vec![0x01, 1], vec![0x02, 2], vec![0x04, 0xC4, 0x09]]
    );
    db.holding_registers[16] = 300;
    board.apply_outputs(&db).ok().unwrap();
    assert_eq!(bus.take_log(), vec![vec![0x04, 0xB8, 0x0B]]);
}

#[test]
fn failed_write_is_retried_next_cycle() {
    let def = mixed_def();
    let bus = MockBus::new();
    let mut board = GenericBoard::new(bus.clone(), 0, &def).ok().unwrap();
    let mut db = DataBank::new();
    db.coils[17] = true;
    *bus.fail_writes.borrow_mut() = true;
    assert!(board.apply_outputs(&db).is_err());
    *bus.fail_writes.borrow_mut() = false;
    board.apply_outputs(&db).ok().unwrap();
    assert_eq!(
        bus.take_log(),
        vec![vec![0x02, 1], vec![0x01, 2], vec![0x04, 0x00, 0x00]]
    );
}

#[test]
fn unsupported_layouts_are_detected() {
    let mut def = mixed_def();
    def.io_groups[2].register_clr = None;
    assert!(!layout_supported(&def));
    let mut def = mixed_def();
    def.io_groups[1].channels = 129;
    assert!(!layout_supported(&def));
    let mut relay = BoardDef::default_relay16();
    relay.channels.relays = Some(17);
    relay.channels.relay_remap = None;
    assert!(!layout_supported(&relay));
}
