use sequent_gateway::hal::traits::{BoardCapability, SequentBoard};

/// Minimal test board for verifying the trait's default methods.
struct DummyBoard;

impl SequentBoard for DummyBoard {
    fn name(&self) -> &str {
        "Dummy"
    }
    fn stack_id(&self) -> u8 {
        0
    }
    fn capabilities(&self) -> &'static [BoardCapability] {
        &[BoardCapability::Relays, BoardCapability::DiscreteInputs]
    }
    fn relay_count(&self) -> usize {
        4
    }
}

#[test]
fn has_capability_true() {
    let board = DummyBoard;
    assert!(board.has_capability(BoardCapability::Relays));
    assert!(board.has_capability(BoardCapability::DiscreteInputs));
}

#[test]
fn has_capability_false() {
    let board = DummyBoard;
    assert!(!board.has_capability(BoardCapability::AnalogInputs));
    assert!(!board.has_capability(BoardCapability::AnalogOutputs));
}

#[test]
fn trait_metadata() {
    let board = DummyBoard;
    assert_eq!(board.name(), "Dummy");
    assert_eq!(board.stack_id(), 0);
    assert_eq!(board.relay_count(), 4);
}

struct NoRelays;

impl SequentBoard for NoRelays {
    fn name(&self) -> &str {
        "NoRelays"
    }
    fn stack_id(&self) -> u8 {
        0
    }
    fn capabilities(&self) -> &'static [BoardCapability] {
        &[]
    }
}

#[test]
fn default_relay_count_is_zero() {
    assert_eq!(NoRelays.relay_count(), 0);
    assert!(!NoRelays.has_capability(BoardCapability::Relays));
}

#[test]
fn default_io_hooks_do_nothing() {
    let mut b = NoRelays;
    let mut db = sequent_gateway::databank::DataBank::new();
    assert!(b.poll_inputs(&mut db).is_ok());
    assert!(b.apply_outputs(&db).is_ok());
    assert_eq!(b.read_relay_state().ok(), Some(0));
    assert_eq!(b.expected_relay_bitmask(), 0);
    assert!(!b.has_confirmed_relay(0));
    b.invalidate_relay(0);
    assert_eq!(db.holding_registers, [0u16; 25]);
}
