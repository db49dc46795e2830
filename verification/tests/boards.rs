use std::cell::RefCell;
use std::collections::VecDeque;
use std::rc::Rc;

use sequent_gateway::board_def::BoardDef;
use sequent_gateway::hal::driver::I2cBus;
use sequent_gateway::hal::megaind::MegaIndBoard;
use sequent_gateway::hal::relay16::RelayBoard;
use sequent_gateway::hal::traits::{BoardCapability, BoardError, SequentBoard};

/// A bus that logs every write and answers reads from a queue
/// (`None` = a failed read).
#[derive(Clone)]
struct MockBus {
    log: Rc<RefCell<Vec<Vec<u8>>>>,
    reads: Rc<RefCell<VecDeque<Option<Vec<u8>>>>>,
}

impl MockBus {
    fn new() -> Self {
        MockBus { log: Rc::new(RefCell::new(Vec::new())), reads: Rc::new(RefCell::new(VecDeque::new())) }
    }
    fn answer(&self, bytes: &[u8]) {
        self.reads.borrow_mut().push_back(Some(bytes.to_vec()));
    }
    fn fail_next_read(&self) {
        self.reads.borrow_mut().push_back(None);
    }
    fn take_log(&self) -> Vec<Vec<u8>> {
        std::mem::take(&mut *self.log.borrow_mut())
    }
}

impl I2cBus for MockBus {
    fn write(&mut self, data: &[u8]) -> Result<(), BoardError> {
        self.log.borrow_mut().push(data.to_vec());
        Ok(())
    }
    fn read(&mut self, buf: &mut [u8]) -> Result<(), BoardError> {
        match self.reads.borrow_mut().pop_front() {
            Some(Some(bytes)) => {
                buf.copy_from_slice(&bytes[..buf.len()]);
                Ok(())
            }
            _ => Err(BoardError { message: "timeout".into() }),
        }
    }
}

#[test]
fn megaind_opto_inputs_decode_bits() {
    let bus = MockBus::new();
    let mut board = MegaIndBoard::new(bus.clone(), 2, &BoardDef::default_megaind());
    assert_eq!(board.stack_id(), 2);
    bus.answer(&[0b1000_0101]);
    let (val, bits) = board.read_opto_inputs().ok().unwrap();
    assert_eq!(val, 0b1000_0101);
    assert_eq!(bits, [true, false, true, false, false, false, false, true]);
    assert_eq!(bus.take_log(), vec![vec![0x03]]);
}

#[test]
fn megaind_analog_channels_read_two_apart() {
    let bus = MockBus::new();
    let mut board = MegaIndBoard::new(bus.clone(), 0, &BoardDef::default_megaind());
    bus.answer(&[0x10, 0x27]); // 10000 counts
    bus.fail_next_read();
    bus.answer(&[0xE8, 0x03]);
    bus.answer(&[0x00, 0x00]);
    let v = board.read_0_10v_inputs().ok().unwrap();
    assert_eq!(v, [10000, 0, 1000, 0]);
    assert_eq!(bus.take_log(), vec![vec![0x1C], vec![0x1E], vec![0x20], vec![0x22]]);
    assert_eq!(board.voltage_scale(), 1000);

    for _ in 0..8 {
        bus.answer(&[0xA0, 0x0F]); // 4000 counts = 4 mA
    }
    let i = board.read_4_20ma_inputs().ok().unwrap();
    assert_eq!(i, [4000; 8]);
    let log = bus.take_log();
    assert_eq!(log.first(), Some(&vec![0x2C]));
    assert_eq!(log.last(), Some(&vec![0x3A]));
}

#[test]
fn megaind_od_output_range_and_registers() {
    let bus = MockBus::new();
    let mut board = MegaIndBoard::new(bus.clone(), 0, &BoardDef::default_megaind());
    let err = board.set_od_output(5, true).err().unwrap();
    assert_eq!(err.message, "OD channel must be 1–4, got 5");
    assert!(board.set_od_output(0, false).is_err());
    assert!(bus.take_log().is_empty());
    board.set_od_output(3, true).ok().unwrap();
    board.set_od_output(3, false).ok().unwrap();
    assert_eq!(bus.take_log(), vec![vec![0x01, 3], vec![0x02, 3]]);
}

#[test]
fn megaind_firmware_and_supply() {
    let bus = MockBus::new();
    let mut board = MegaIndBoard::new(bus.clone(), 0, &BoardDef::default_megaind());
    bus.answer(&[1, 7]);
    assert_eq!(board.read_firmware_version().ok(), Some((1, 7)));
    bus.answer(&[0x38, 0x5E]); // 24120
    assert_eq!(board.read_system_voltage().ok(), Some(24120));
    assert_eq!(bus.take_log(), vec![vec![0x78], vec![0x73]]);
    bus.fail_next_read();
    let err = board.read_system_voltage().err().unwrap();
    assert_eq!(err.message, "I²C read 2 bytes from 0x73: timeout");
}

#[test]
fn relay_board_needs_pca_section() {
    let def = BoardDef::default_megaind();
    let err = RelayBoard::new(MockBus::new(), 0, &def).err().unwrap();
    assert_eq!(err.message, "Board definition missing [pca9535] section");
}

#[test]
fn relay_board_init_switch_and_read_back() {
    let def = BoardDef::default_relay16();
    let bus = MockBus::new();
    bus.answer(&[0xFF, 0xFF]); // all pins inputs
    let mut board = RelayBoard::new(bus.clone(), 1, &def).ok().unwrap();
    assert_eq!(bus.take_log(), vec![vec![0x06], vec![0x02, 0, 0], vec![0x06, 0, 0]]);
    assert_eq!(RelayBoard::relay_count(&board), 16);
    assert_eq!(RelayBoard::stack_id(&board), 1);
    assert_eq!(board.name(), "Relay HAT");
    assert!(board.has_capability(BoardCapability::Relays));

    bus.answer(&[0x00, 0x00]);
    board.set_relay(1, true).ok().unwrap(); // relay 1 → bit 15
    assert_eq!(bus.take_log(), vec![vec![0x02], vec![0x02, 0x00, 0x80]]);

    bus.answer(&[0x01, 0x80]);
    board.set_relay(16, false).ok().unwrap(); // relay 16 → bit 0
    assert_eq!(bus.take_log(), vec![vec![0x02], vec![0x02, 0x00, 0x80]]);

    bus.answer(&[0x00, 0x80]);
    assert_eq!(RelayBoard::read_relay_state(&mut board).ok(), Some(0x0001));

    let err = board.set_relay(17, true).err().unwrap();
    assert_eq!(err.message, "Relay channel must be 1–16, got 17");
    assert!(board.set_relay(0, true).is_err());
}

#[test]
fn relay_board_keeps_configured_outputs() {
    let def = BoardDef::default_relay16();
    let bus = MockBus::new();
    bus.answer(&[0x00, 0x00]);
    assert!(RelayBoard::new(bus.clone(), 0, &def).is_ok());
    assert_eq!(bus.take_log(), vec![vec![0x06]]);
}

#[test]
fn relay_board_init_failure_names_the_step() {
    let def = BoardDef::default_relay16();
    let bus = MockBus::new();
    bus.fail_next_read();
    let err = RelayBoard::new(bus.clone(), 0, &def).err().unwrap();
    assert_eq!(err.message, "Failed to read CFG register: timeout");
    assert_eq!(bus.take_log(), vec![vec![0x06]]);
}
