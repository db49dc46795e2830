use sequent_gateway::board_registry::BoardRegistry;
use sequent_gateway::databank::DataBank;
use sequent_gateway::hal::traits::{BoardCapability, BoardError, SequentBoard};

/// Mock input board for testing.
struct MockInputBoard {
    stack: u8,
    value: u16,
}

impl SequentBoard for MockInputBoard {
    fn name(&self) -> &str {
        "MockInput"
    }
    fn stack_id(&self) -> u8 {
        self.stack
    }
    fn capabilities(&self) -> &[BoardCapability] {
        &[BoardCapability::AnalogInputs, BoardCapability::DiscreteInputs]
    }
    fn poll_inputs(&mut self, db: &mut DataBank) -> Result<(), BoardError> {
        db.holding_registers[0] = self.value;
        Ok(())
    }
}

/// Mock output board for testing.
struct MockRelayBoard {
    stack: u8,
    relays: usize,
    applied: bool,
}

impl SequentBoard for MockRelayBoard {
    fn name(&self) -> &str {
        "MockRelay"
    }
    fn stack_id(&self) -> u8 {
        self.stack
    }
    fn capabilities(&self) -> &[BoardCapability] {
        &[BoardCapability::Relays]
    }
    fn relay_count(&self) -> usize {
        self.relays
    }
    fn apply_outputs(&mut self, _db: &DataBank) -> Result<(), BoardError> {
        self.applied = true;
        Ok(())
    }
}

#[test]
fn empty_registry() {
    let reg = BoardRegistry::new();
    assert!(reg.is_empty());
    assert_eq!(reg.len(), 0);
    assert_eq!(reg.total_relay_count(), 0);
}

#[test]
fn register_and_count() {
    let mut reg = BoardRegistry::new();
    let idx0 = reg.register(Box::new(MockInputBoard { stack: 1, value: 0 }));
    let idx1 = reg.register(Box::new(MockRelayBoard { stack: 0, relays: 16, applied: false }));
    assert_eq!(idx0, 0);
    assert_eq!(idx1, 1);
    assert_eq!(reg.len(), 2);
    assert!(!reg.is_empty());
}

#[test]
fn total_relay_count_sums_relay_boards() {
    let mut reg = BoardRegistry::new();
    reg.register(Box::new(MockInputBoard { stack: 1, value: 0 }));
    reg.register(Box::new(MockRelayBoard { stack: 0, relays: 16, applied: false }));
    assert_eq!(reg.total_relay_count(), 16);
}

#[test]
fn has_capability_queries() {
    let mut reg = BoardRegistry::new();
    reg.register(Box::new(MockInputBoard { stack: 1, value: 0 }));
    assert!(reg.has_capability(BoardCapability::AnalogInputs));
    assert!(!reg.has_capability(BoardCapability::Relays));

    reg.register(Box::new(MockRelayBoard { stack: 0, relays: 8, applied: false }));
    assert!(reg.has_capability(BoardCapability::Relays));
}

#[test]
fn poll_inputs_dispatches_through_registry() {
    let mut reg = BoardRegistry::new();
    reg.register(Box::new(MockInputBoard { stack: 1, value: 4200 }));
    reg.register(Box::new(MockRelayBoard { stack: 0, relays: 16, applied: false }));

    let mut db = DataBank::new();
    for board in reg.boards_mut() {
        board.poll_inputs(&mut db).unwrap();
    }
    assert_eq!(db.holding_registers[0], 4200);
}

#[test]
fn apply_outputs_dispatches_through_registry() {
    let mut reg = BoardRegistry::new();
    reg.register(Box::new(MockInputBoard { stack: 1, value: 0 }));
    reg.register(Box::new(MockRelayBoard { stack: 0, relays: 16, applied: false }));

    let db = DataBank::new();
    for board in reg.boards_mut() {
        board.apply_outputs(&db).unwrap();
    }
    // Relay board's apply_outputs was called (no panic = success)
}

#[test]
fn boards_iterator_yields_metadata() {
    let mut reg = BoardRegistry::new();
    reg.register(Box::new(MockInputBoard { stack: 3, value: 0 }));
    reg.register(Box::new(MockRelayBoard { stack: 5, relays: 8, applied: false }));

    let names: Vec<&str> = reg.boards().iter().map(|b| b.name()).collect();
    assert_eq!(names, vec!["MockInput", "MockRelay"]);

    let stacks: Vec<u8> = reg.boards().iter().map(|b| b.stack_id()).collect();
    assert_eq!(stacks, vec![3, 5]);
}

#[test]
fn relay_total_grows_only_with_relay_boards() {
    let mut reg = BoardRegistry::new();
    reg.register(Box::new(MockRelayBoard { stack: 0, relays: 16, applied: false }));
    reg.register(Box::new(MockInputBoard { stack: 1, value: 0 }));
    assert_eq!(reg.total_relay_count(), 16);
    reg.register(Box::new(MockRelayBoard { stack: 2, relays: 8, applied: false }));
    assert_eq!(reg.total_relay_count(), 24);
}

#[test]
fn startup_summary_lists_each_board() {
    let mut reg = BoardRegistry::new();
    assert_eq!(reg.log_startup_summary(), vec!["Registered boards: 0".to_string()]);
    reg.register(Box::new(MockInputBoard { stack: 1, value: 0 }));
    reg.register(Box::new(MockRelayBoard { stack: 0, relays: 16, applied: false }));
    let lines = reg.log_startup_summary();
    assert_eq!(
        lines,
        vec![
            "Registered boards: 2".to_string(),
            "  [0] MockInput — stack 1 — [AnalogInputs, DiscreteInputs] — 0 relays".to_string(),
            "  [1] MockRelay — stack 0 — [Relays] — 16 relays".to_string(),
        ]
    );
    assert_eq!(format!("{:?}", [BoardCapability::Relays, BoardCapability::AnalogOutputs]), "[Relays, AnalogOutputs]");
}

#[test]
fn register_records_what_the_board_reports() {
    let mut reg = BoardRegistry::new();
    reg.register(Box::new(MockInputBoard { stack: 1, value: 0 }));
    assert!(reg.has_capability(BoardCapability::AnalogInputs));
    assert!(!reg.has_capability(BoardCapability::Relays));
    assert_eq!(reg.checked_total_relay_count(), Some(0));
    reg.register(Box::new(MockRelayBoard { stack: 0, relays: 8, applied: false }));
    assert!(reg.has_capability(BoardCapability::Relays));
    assert_eq!(reg.checked_total_relay_count(), Some(8));
    let lines = reg.log_startup_summary();
    assert!(lines[1].contains("MockInput"));
    assert!(lines[1].contains("stack 1"));
    assert!(lines[2].contains("MockRelay"));
    assert!(lines[2].contains("8 relays"));
}

#[test]
fn checked_relay_total_reports_overflow() {
    let mut reg = BoardRegistry::new();
    reg.register(Box::new(MockRelayBoard { stack: 0, relays: usize::MAX, applied: false }));
    assert_eq!(reg.checked_total_relay_count(), Some(usize::MAX));
    reg.register(Box::new(MockRelayBoard { stack: 1, relays: 1, applied: false }));
    assert_eq!(reg.checked_total_relay_count(), None);
}
