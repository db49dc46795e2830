//! Common trait of the Sequent Microsystems I²C boards.
//!
//! [`SequentBoard`] gives identity and capability introspection, so that
//! the gateway can discover and report on boards at runtime without
//! knowing the concrete driver type, and dispatches the poll loop's I/O.
use vstd::prelude::*;

use crate::databank::DataBank;

verus! {

/// Capabilities that a board may expose to the gateway.
#[derive(Debug, Clone, Copy, PartialEq, Eq, Hash, Structural)]
pub enum BoardCapability {
    /// Digital relay outputs (Modbus coils).
    Relays,
    /// Opto-isolated discrete inputs (Modbus discrete inputs).
    DiscreteInputs,
    /// Open-drain digital outputs (Modbus coils after the relays).
    DiscreteOutputs,
    /// 4-20 mA / 0-10 V analog inputs (holding registers, read-only).
    AnalogInputs,
    /// 4-20 mA / 0-10 V analog outputs (holding registers, writable).
    AnalogOutputs,
}

/// Failure of a board I/O operation, with its message.
#[derive(Debug)]
pub struct BoardError {
    pub message: String,
}

/// Whether `caps` lists `cap`.
pub fn capability_listed(caps: &[BoardCapability], cap: BoardCapability) -> (b: bool)
    ensures
        b == caps@.contains(cap),
{
    let mut i: usize = 0;
    while i < caps.len()
        invariant
            i <= caps@.len(),
            forall|j: int| 0 <= j < i ==> caps@[j] != cap,
        decreases caps@.len() - i,
    {
        if caps[i] == cap {
            assert(caps@[i as int] == cap);
            return true;
        }
        i += 1;
    }
    false
}

/// Common interface of the Sequent Microsystems I²C HATs.
///
/// A board reports its name, stack ID, capabilities and relay count, and
/// takes part in the poll loop through `poll_inputs` / `apply_outputs`
/// and the relay read-back hooks (all of which default to doing nothing).
pub trait SequentBoard {
    /// The name this board reports (empty unless the board names it).
    open spec fn name_text(&self) -> Seq<char> {
        Seq::empty()
    }

    /// Human-readable board name (for logging and diagnostics).
    fn name(&self) -> (n: &str)
        ensures
            n@ == self.name_text(),
    ;

    /// The stack ID this board reports (0 unless the board names it).
    open spec fn stack_level(&self) -> u8 {
        0
    }

    /// Stack ID (0–7) used for I²C address calculation.
    fn stack_id(&self) -> (s: u8)
        ensures
            s == self.stack_level(),
    ;

    /// The capabilities this board exposes, as a sequence (none unless the
    /// board names them).
    open spec fn capability_list(&self) -> Seq<BoardCapability> {
        Seq::empty()
    }

    /// Capabilities this board exposes.
    fn capabilities(&self) -> (caps: &[BoardCapability])
        ensures
            caps@ == self.capability_list(),
    ;

    /// Number of relay channels (0 for a board without relays).
    fn relay_count(&self) -> (n: usize)
        default_ensures
            n == 0,
    {
        0
    }

    /// Whether the board lists `cap` among its capabilities.
    fn has_capability(&self, cap: BoardCapability) -> (b: bool)
        ensures
            b == self.capability_list().contains(cap),
    {
        capability_listed(self.capabilities(), cap)
    }

    /// Read the board's inputs into the data bank (a board without inputs
    /// leaves the bank as it is).
    fn poll_inputs(&mut self, db: &mut DataBank) -> (r: Result<(), BoardError>)
        default_ensures
            r is Ok,
            *final(db) == *old(db),
    {
        Ok(())
    }

    /// Write the board's outputs from the data bank (a board without
    /// outputs succeeds at once).
    fn apply_outputs(&mut self, db: &DataBank) -> (r: Result<(), BoardError>)
        default_ensures
            r is Ok,
    {
        Ok(())
    }

    /// Actual relay state read back from the hardware (bit `i` = relay
    /// `i + 1`); 0 for a board without relay read-back.
    fn read_relay_state(&mut self) -> (r: Result<u16, BoardError>)
        default_ensures
            r matches Ok(v) && v == 0,
    {
        Ok(0)
    }

    /// Relay state the output cache expects (bit `i` = relay `i + 1`); 0
    /// for a board without relays.
    fn expected_relay_bitmask(&self) -> (mask: u16)
        default_ensures
            mask == 0,
    {
        0
    }

    /// Whether relay `index` has a confirmed cached state (never, for a
    /// board without an output cache).
    fn has_confirmed_relay(&self, index: usize) -> (b: bool)
        default_ensures
            !b,
    {
        false
    }

    /// Forget the cached state of relay `index` so that it is re-written
    /// (nothing to forget for a board without an output cache).
    fn invalidate_relay(&mut self, index: usize) {
    }
}

} // verus!
