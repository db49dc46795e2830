use sequent_gateway::board_registry::BoardRegistry;
use sequent_gateway::channel_watchdog::Channel;
use sequent_gateway::databank::{DataBank, HR_RELAY_READBACK};
use sequent_gateway::hal::traits::{BoardCapability, BoardError, SequentBoard};
use sequent_gateway::health::HealthStats;
use sequent_gateway::poll::{AfterRecovery, PollConfig, PollState};

struct Analog {
    fail: bool,
}

impl SequentBoard for Analog {
    fn name(&self) -> &str {
        "Analog"
    }
    fn stack_id(&self) -> u8 {
        1
    }
    fn capabilities(&self) -> &[BoardCapability] {
        &[BoardCapability::AnalogInputs, BoardCapability::DiscreteInputs]
    }
    fn poll_inputs(&mut self, db: &mut DataBank) -> Result<(), BoardError> {
        if self.fail {
            return Err(BoardError { message: "bus".into() });
        }
        db.discrete_inputs[1] = true;
        db.discrete_inputs[6] = true;
        Ok(())
    }
}

struct Relays {
    actual: u16,
    expected: u16,
    confirmed: bool,
    invalidated: Vec<usize>,
}

impl SequentBoard for Relays {
    fn name(&self) -> &str {
        "Relays"
    }
    fn stack_id(&self) -> u8 {
        0
    }
    fn capabilities(&self) -> &[BoardCapability] {
        &[BoardCapability::Relays]
    }
    fn relay_count(&self) -> usize {
        4
    }
    fn read_relay_state(&mut self) -> Result<u16, BoardError> {
        Ok(self.actual)
    }
    fn expected_relay_bitmask(&self) -> u16 {
        self.expected
    }
    fn has_confirmed_relay(&self, _index: usize) -> bool {
        self.confirmed
    }
    fn invalidate_relay(&mut self, index: usize) {
        self.invalidated.push(index);
    }
}

fn config() -> PollConfig {
    PollConfig {
        map_opto: true,
        log_interval: 5,
        i2c_reset_threshold: 2,
        channel_fault_threshold: 1,
        relay_verify_interval: 2,
    }
}

#[test]
fn read_phase_maps_opto_and_counts_errors() {
    let mut reg = BoardRegistry::new();
    reg.register(Box::new(Analog { fail: false }));
    let mut state = PollState::new(&config());
    let mut db = DataBank::new();
    let mut health = HealthStats::new();
    let errs = state.read_phase(&mut reg, &mut db, &mut health, true);
    assert_eq!(errs.len(), 1);
    assert!(errs[0].is_none());
    assert_eq!(db.holding_registers[15], 0b0100_0010);
    assert!(!state.recovery_needed(2));
    assert_eq!(state.watchdog().consecutive_failures(), 0);
}

#[test]
fn failures_trigger_recovery() {
    let mut reg = BoardRegistry::new();
    reg.register(Box::new(Analog { fail: true }));
    let mut state = PollState::new(&config());
    let mut db = DataBank::new();
    let mut health = HealthStats::new();
    state.read_phase(&mut reg, &mut db, &mut health, false);
    // channel threshold 1: every channel faulted after one failed poll
    assert!(state.channel_watchdog().is_faulted(Channel::Opto));
    assert!(state.recovery_needed(0));
    state.read_phase(&mut reg, &mut db, &mut health, false);
    assert_eq!(state.watchdog().consecutive_failures(), 2);
    assert!(state.recovery_needed(2));
    assert_eq!(state.book_recovery(true), AfterRecovery::ReopenAndEndTick);
    assert_eq!(state.watchdog().recovery_count(), 1);
    assert_eq!(state.watchdog().consecutive_failures(), 0);
    state.finish_cycle(&mut health, 420);
    let json = health.to_json(0, "0.42");
    assert!(json.contains(r#""i2c_errors":2"#));
    assert!(json.contains(r#""i2c_recoveries":1"#));
    assert!(json.contains(r#""ma":"FAULT""#));
}

#[test]
fn verify_phase_every_nth_tick() {
    let mut reg = BoardRegistry::new();
    reg.register(Box::new(Relays { actual: 0b0101, expected: 0b0001, confirmed: true, invalidated: vec![] }));
    let mut state = PollState::new(&config());
    let mut db = DataBank::new();
    let mut health = HealthStats::new();
    // tick 1: not due
    assert!(state.verify_phase(&mut reg, &mut db, &mut health, 2, 4).is_empty());
    // tick 2: due
    let reports = state.verify_phase(&mut reg, &mut db, &mut health, 2, 4);
    assert_eq!(reports.len(), 1);
    let check = reports[0].result.as_ref().ok().unwrap();
    assert_eq!(check.actual, 0b0101);
    assert_eq!(check.expected, 0b0001);
    assert_eq!(check.mismatch, 0b0100);
    assert_eq!(db.holding_registers[HR_RELAY_READBACK], 0b0101);
    let json = health.to_json(0, "0.00");
    assert!(json.contains(r#""relay_mismatches":1"#));
}

#[test]
fn unconfirmed_relays_are_not_mismatches() {
    let mut reg = BoardRegistry::new();
    reg.register(Box::new(Relays { actual: 0b1111, expected: 0, confirmed: false, invalidated: vec![] }));
    let mut state = PollState::new(&config());
    let mut db = DataBank::new();
    let mut health = HealthStats::new();
    let reports = state.verify_phase(&mut reg, &mut db, &mut health, 1, 4);
    assert_eq!(reports[0].result.as_ref().ok().unwrap().mismatch, 0);
    assert!(health.to_json(0, "0.00").contains(r#""relay_mismatches":0"#));
}

#[test]
fn write_phase_reports_each_board() {
    let mut reg = BoardRegistry::new();
    reg.register(Box::new(Analog { fail: false }));
    reg.register(Box::new(Relays { actual: 0, expected: 0, confirmed: false, invalidated: vec![] }));
    let mut state = PollState::new(&config());
    let db = DataBank::new();
    let mut health = HealthStats::new();
    let errs = state.write_phase(&mut reg, &db, &mut health);
    assert_eq!(errs.len(), 2);
    assert!(errs.iter().all(|e| e.is_none()));
}

struct LoggedRelays {
    actual: Result<u16, ()>,
    expected: u16,
    confirmed: u16,
    invalidated: std::rc::Rc<std::cell::RefCell<Vec<usize>>>,
}

impl SequentBoard for LoggedRelays {
    fn name(&self) -> &str {
        "LoggedRelays"
    }
    fn stack_id(&self) -> u8 {
        2
    }
    fn capabilities(&self) -> &[BoardCapability] {
        &[BoardCapability::Relays]
    }
    fn relay_count(&self) -> usize {
        8
    }
    fn read_relay_state(&mut self) -> Result<u16, BoardError> {
        self.actual.map_err(|_| BoardError { message: "read".into() })
    }
    fn expected_relay_bitmask(&self) -> u16 {
        self.expected
    }
    fn has_confirmed_relay(&self, index: usize) -> bool {
        self.confirmed & (1 << index) != 0
    }
    fn invalidate_relay(&mut self, index: usize) {
        self.invalidated.borrow_mut().push(index);
    }
}

#[test]
fn verify_phase_invalidates_exactly_the_confirmed_differing_relays() {
    let log = std::rc::Rc::new(std::cell::RefCell::new(Vec::new()));
    let mut reg = BoardRegistry::new();
    reg.register(Box::new(Analog { fail: false }));
    // relays 0, 2, 3 and 9 differ; 0 and 3 are confirmed; 9 is beyond the count
    reg.register(Box::new(LoggedRelays {
        actual: Ok(0b10_0000_1100),
        expected: 0b00_0000_0001,
        confirmed: 0b10_0000_1001,
        invalidated: log.clone(),
    }));
    let mut state = PollState::new(&config());
    let mut db = DataBank::new();
    db.holding_registers[16] = 500;
    db.holding_registers[23] = 7;
    let mut health = HealthStats::new();
    let reports = state.verify_phase(&mut reg, &mut db, &mut health, 1, 8);
    assert_eq!(reports.len(), 1);
    assert_eq!(reports[0].index, 1);
    let check = reports[0].result.as_ref().ok().unwrap();
    assert_eq!(check.relay_count, 8);
    assert_eq!(check.mismatch, 0b1001);
    assert_eq!(*log.borrow(), vec![0, 3]);
    assert_eq!(db.holding_registers[HR_RELAY_READBACK], 0b10_0000_1100);
    assert_eq!(db.holding_registers[16], 500);
    assert_eq!(db.holding_registers[23], 7);
    assert!(health.to_json(0, "0.00").contains(r#""relay_mismatches":1"#));
}

#[test]
fn failed_read_back_counts_an_error_and_keeps_register_24() {
    let log = std::rc::Rc::new(std::cell::RefCell::new(Vec::new()));
    let mut reg = BoardRegistry::new();
    reg.register(Box::new(LoggedRelays {
        actual: Err(()),
        expected: 0,
        confirmed: 0xFFFF,
        invalidated: log.clone(),
    }));
    let mut state = PollState::new(&config());
    let mut db = DataBank::new();
    db.holding_registers[HR_RELAY_READBACK] = 0x1234;
    let mut health = HealthStats::new();
    let reports = state.verify_phase(&mut reg, &mut db, &mut health, 1, 8);
    assert_eq!(reports.len(), 1);
    assert!(reports[0].result.is_err());
    assert!(log.borrow().is_empty());
    assert_eq!(db.holding_registers[HR_RELAY_READBACK], 0x1234);
    let json = health.to_json(0, "0.00");
    assert!(json.contains(r#""i2c_errors":1"#));
    assert!(json.contains(r#""relay_mismatches":0"#));
}
