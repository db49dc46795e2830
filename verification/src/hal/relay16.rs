//! Driver for relay boards built on a PCA9535 I/O expander (such as the
//! Sequent 16-Relay HAT).
//!
//! The expander's output port holds one bit per relay; which bit drives
//! which relay is the board definition's channel remap.  A relay is
//! switched by reading the port, changing its bit and writing it back.
use vstd::prelude::*;
use vstd::string::StringExecFns;

use crate::board_def::{copy_opt_bytes, opt_bytes, BoardDef, ChannelConfig, Pca9535Config};
use crate::cache::word_bit;
use crate::hal::driver::{
    le16, logged_read, logged_write, set_port_bit, spec_le_bytes, spec_pca_init_events,
    spec_select_read, spec_select_read_failed, spec_starts_with, spec_unremap_bit, unremap_bits, with_context,
    BusEvent, I2cBus,
};
use crate::hal::traits::{BoardCapability, BoardError, SequentBoard};
use crate::text::{push_decimal, spec_decimal};

verus! {

/// The remap used when the definition gives none: relay 1 on bit 15,
/// relay 16 on bit 0.
pub open spec fn spec_default_remap() -> Seq<u8> {
    Seq::new(16, |i: int| (15 - i) as u8)
}

/// The channel-to-bit remap of a channel configuration.
pub open spec fn spec_relay_remap(ch: ChannelConfig) -> Seq<u8> {
    match opt_bytes(ch.relay_remap) {
        Some(r) => r,
        None => spec_default_remap(),
    }
}

/// A remap that the 16-bit port can carry: at most 16 relays, each on a
/// bit of the port.
pub open spec fn spec_remap_ok(remap: Seq<u8>) -> bool {
    &&& remap.len() <= 16
    &&& forall|i: int| 0 <= i < remap.len() ==> #[trigger] remap[i] < 16
}

/// Whether `v` is the port value `raw` in logical relay order.
pub open spec fn spec_is_unremap_of(v: u16, raw: u16, remap: Seq<u8>) -> bool {
    forall|b: int| 0 <= b < 16 ==> #[trigger] word_bit(v, b) == spec_unremap_bit(raw, remap, b)
}

/// Whether `log` is the start-up of an expander whose configuration read
/// gave some value.
pub open spec fn spec_is_pca_init(log: Seq<BusEvent>, pca: Pca9535Config) -> bool {
    exists|cfg: u16| #[trigger] spec_pca_init_events(pca, cfg) == log
}

/// Whether the port value `next` is `raw` with bit `bit` set to `state`.
pub open spec fn spec_port_switched(raw: u16, next: u16, bit: int, state: bool) -> bool {
    forall|b: int|
        0 <= b < 16 ==> #[trigger] word_bit(next, b) == if b == bit {
            state
        } else {
            word_bit(raw, b)
        }
}

/// The transactions of switching one relay: the output port is read
/// (giving `raw`) and `next` is written back.
pub open spec fn spec_switch_events(outport: u8, raw: u16, next: u16) -> Seq<BusEvent> {
    spec_select_read(outport, spec_le_bytes(raw)).push(
        BusEvent::Write(seq![outport] + spec_le_bytes(next)),
    )
}

/// `log1` is `log0` followed by a read-modify-write of the output port
/// that sets bit `bit` to `state`.
pub open spec fn spec_relay_switched(
    log0: Seq<BusEvent>,
    log1: Seq<BusEvent>,
    outport: u8,
    bit: int,
    state: bool,
) -> bool {
    exists|raw: u16, next: u16|
        log1 == log0 + #[trigger] spec_switch_events(outport, raw, next) && spec_port_switched(
            raw,
            next,
            bit,
            state,
        )
}

/// `log1` is `log0` followed by a read of the output port whose value, in
/// logical relay order, is `v`.
pub open spec fn spec_relay_read(
    log0: Seq<BusEvent>,
    log1: Seq<BusEvent>,
    outport: u8,
    v: u16,
    remap: Seq<u8>,
) -> bool {
    exists|raw: u16|
        log1 == log0 + spec_select_read(outport, spec_le_bytes(raw)) && #[trigger] spec_is_unremap_of(
            v,
            raw,
            remap,
        )
}

/// The error text for a relay channel outside 1–`count`.
pub open spec fn spec_relay_range_message(count: nat, channel: u8) -> Seq<char> {
    "Relay channel must be 1–"@ + spec_decimal(count) + ", got "@ + spec_decimal(channel as nat)
}

/// The error text of a definition without a PCA9535 section.
pub open spec fn spec_missing_pca_message() -> Seq<char> {
    "Board definition missing [pca9535] section"@
}

/// The contexts of the expander set-up steps, in order: each names the
/// transfer that failed.
pub open spec fn spec_relay_init_steps() -> Seq<Seq<char>> {
    seq![
        "Failed to set CFG register address"@,
        "Failed to read CFG register"@,
        "Failed to clear OUTPORT register"@,
        "Failed to write CFG register"@,
    ]
}

/// Whether `m` reports a failed transfer of an expander set-up step: one
/// step's context, `: `, then the bus's own message.
pub open spec fn spec_relay_init_failure(m: Seq<char>) -> bool {
    exists|i: int| 0 <= i < 4 && spec_starts_with(m, #[trigger] spec_relay_init_steps()[i] + ": "@)
}

proof fn relay_init_failure_witness(m: Seq<char>, i: int, inner: Seq<char>)
    requires
        0 <= i < 4,
        m == spec_relay_init_steps()[i] + ": "@ + inner,
    ensures
        spec_relay_init_failure(m),
        m != spec_missing_pca_message(),
{
    reveal_strlit("Board definition missing [pca9535] section");
    reveal_strlit("Failed to set CFG register address");
    reveal_strlit("Failed to read CFG register");
    reveal_strlit("Failed to clear OUTPORT register");
    reveal_strlit("Failed to write CFG register");
    let p = spec_relay_init_steps()[i] + ": "@;
    assert(spec_relay_init_steps()[i][0] == 'F');
    assert(m[0] == p[0]);
    assert(m.subrange(0, p.len() as int) =~= p);
    assert(spec_starts_with(m, p));
}

/// Abstract state of a [`RelayBoard`].
pub struct RelayView {
    pub stack_id: u8,
    pub outport_reg: u8,
    pub remap: Seq<u8>,
    pub capabilities: Seq<BoardCapability>,
}

/// Driver of a PCA9535 relay board on the bus `B`.
pub struct RelayBoard<B: I2cBus> {
    bus: B,
    stack_id: u8,
    outport_reg: u8,
    ch_remap: Vec<u8>,
    capabilities: Vec<BoardCapability>,
    log: Ghost<Seq<BusEvent>>,
}

impl<B: I2cBus> View for RelayBoard<B> {
    type V = RelayView;

    closed spec fn view(&self) -> RelayView {
        RelayView {
            stack_id: self.stack_id,
            outport_reg: self.outport_reg,
            remap: self.ch_remap@,
            capabilities: self.capabilities@,
        }
    }
}

fn default_remap() -> (v: Vec<u8>)
    ensures
        v@ == spec_default_remap(),
{
    let mut v: Vec<u8> = Vec::new();
    let mut i: u8 = 0;
    while i < 16
        invariant
            i <= 16,
            v@.len() == i,
            forall|j: int| 0 <= j < i ==> #[trigger] v@[j] == (15 - j) as u8,
        decreases 16 - i,
    {
        v.push(15 - i);
        i += 1;
    }
    assert(v@ =~= spec_default_remap());
    v
}

impl<B: I2cBus> RelayBoard<B> {
    /// The transactions this driver has made on its bus, oldest first.
    pub closed spec fn bus_log(&self) -> Seq<BusEvent> {
        self.log@
    }

    /// A relay board at `stack_id` on `bus` (already opened at the board's
    /// address), described by `def`.
    ///
    /// The definition must have a PCA9535 section: without one the result
    /// is the missing-section error, and only then.  The expander's port
    /// configuration is read; when any pin is an input, the output port is
    /// cleared and every pin made an output.  A failed transfer there is an
    /// error naming the step, followed by the bus's message; whether a
    /// transfer fails is the bus's outcome, which nothing here states.
    pub fn new(bus: B, stack_id: u8, def: &BoardDef) -> (r: Result<Self, BoardError>)
        ensures
            def.pca9535 is None ==> (r matches Err(e) && e.message@ == spec_missing_pca_message()),
            r matches Err(e) && e.message@ == spec_missing_pca_message() ==> def.pca9535 is None,
            def.pca9535 is Some ==> (r matches Err(e) ==> spec_relay_init_failure(e.message@)),
            r matches Ok(b) ==> {
                &&& def.pca9535 is Some
                &&& b@.stack_id == stack_id
                &&& b@.outport_reg == def.pca9535.unwrap().outport_reg
                &&& b@.remap == spec_relay_remap(def.channels)
                &&& b@.capabilities == seq![BoardCapability::Relays]
                &&& spec_is_pca_init(b.bus_log(), def.pca9535.unwrap())
            },
    {
        let pca = match def.pca9535 {
            Some(p) => p,
            None => {
                return Err(BoardError { message: String::from_str("Board definition missing [pca9535] section") });
            },
        };
        let ch_remap = match copy_opt_bytes(&def.channels.relay_remap) {
            Some(r) => r,
            None => default_remap(),
        };
        let mut bus = bus;
        let mut log: Ghost<Seq<BusEvent>> = Ghost(Seq::empty());
        let mut cfg_buf = [0u8; 2];
        let select = [pca.config_reg];
        assert(select@ =~= seq![pca.config_reg]);
        match logged_write(&mut bus, &mut log, &select) {
            Ok(()) => {},
            Err(e) => {
                let ghost inner = e.message@;
                let err = with_context(e, "Failed to set CFG register address");
                proof {
                    relay_init_failure_witness(err.message@, 0, inner);
                }
                return Err(err);
            },
        }
        match logged_read(&mut bus, &mut log, &mut cfg_buf) {
            Ok(()) => {},
            Err(e) => {
                let ghost inner = e.message@;
                let err = with_context(e, "Failed to read CFG register");
                proof {
                    relay_init_failure_witness(err.message@, 1, inner);
                }
                return Err(err);
            },
        }
        let cfg_val = le16(cfg_buf[0], cfg_buf[1]);
        assert(cfg_buf@ =~= spec_le_bytes(cfg_val));
        let ghost after_read = log@;
        if cfg_val != 0 {
            let clear = [pca.outport_reg, 0, 0];
            assert(clear@ =~= seq![pca.outport_reg, 0u8, 0u8]);
            match logged_write(&mut bus, &mut log, &clear) {
                Ok(()) => {},
                Err(e) => {
                    let ghost inner = e.message@;
                    let err = with_context(e, "Failed to clear OUTPORT register");
                    proof {
                        relay_init_failure_witness(err.message@, 2, inner);
                    }
                    return Err(err);
                },
            }
            let outputs = [pca.config_reg, 0, 0];
            assert(outputs@ =~= seq![pca.config_reg, 0u8, 0u8]);
            match logged_write(&mut bus, &mut log, &outputs) {
                Ok(()) => {},
                Err(e) => {
                    let ghost inner = e.message@;
                    let err = with_context(e, "Failed to write CFG register");
                    proof {
                        relay_init_failure_witness(err.message@, 3, inner);
                    }
                    return Err(err);
                },
            }
        }
        proof {
            assert(log@ =~= spec_pca_init_events(pca, cfg_val));
        }
        let capabilities = vec![BoardCapability::Relays];
        Ok(RelayBoard { bus, stack_id, outport_reg: pca.outport_reg, ch_remap, capabilities, log })
    }

    /// The 16-bit output port (raw expander bit order).
    fn read_output_reg(&mut self) -> (r: Result<u16, BoardError>)
        ensures
            final(self)@ == old(self)@,
            r matches Ok(v) ==> final(self).bus_log() == old(self).bus_log() + spec_select_read(
                old(self)@.outport_reg,
                spec_le_bytes(v),
            ),
            r is Err ==> spec_select_read_failed(
                old(self).bus_log(),
                final(self).bus_log(),
                old(self)@.outport_reg,
            ),
    {
        let ghost log0 = self.log@;
        let mut buf = [0u8; 2];
        let select = [self.outport_reg];
        assert(select@ =~= seq![self.outport_reg]);
        match logged_write(&mut self.bus, &mut self.log, &select) {
            Ok(()) => {},
            Err(e) => {
                return Err(with_context(e, "Failed to set OUTPORT address"));
            },
        }
        match logged_read(&mut self.bus, &mut self.log, &mut buf) {
            Ok(()) => {
                let v = le16(buf[0], buf[1]);
                assert(buf@ =~= spec_le_bytes(v));
                assert(self.log@ =~= log0 + spec_select_read(self.outport_reg, spec_le_bytes(v)));
                Ok(v)
            },
            Err(e) => {
                assert(self.log@ =~= log0 + seq![
                    BusEvent::Write(seq![self.outport_reg]),
                    BusEvent::ReadFailed,
                ]);
                Err(with_context(e, "Failed to read OUTPORT register"))
            },
        }
    }

    /// Write `val` to the output port, low byte first.
    fn write_output_reg(&mut self, val: u16) -> (r: Result<(), BoardError>)
        ensures
            final(self)@ == old(self)@,
            final(self).bus_log() == old(self).bus_log().push(
                BusEvent::Write(seq![old(self)@.outport_reg] + spec_le_bytes(val)),
            ),
    {
        let lo = (val % 256) as u8;
        let hi = (val / 256) as u8;
        let data = [self.outport_reg, lo, hi];
        assert(data@ =~= seq![self.outport_reg] + spec_le_bytes(val));
        match logged_write(&mut self.bus, &mut self.log, &data) {
            Ok(()) => Ok(()),
            Err(e) => Err(with_context(e, "Failed to write OUTPORT register")),
        }
    }

    /// Switch relay `channel` (1 to the relay count) on or off: the port is
    /// read, the relay's bit set or cleared, and the port written back.
    pub fn set_relay(&mut self, channel: u8, state: bool) -> (r: Result<(), BoardError>)
        requires
            spec_remap_ok(old(self)@.remap),
        ensures
            final(self)@ == old(self)@,
            !(1 <= channel <= old(self)@.remap.len()) ==> (r matches Err(e) && e.message@
                == spec_relay_range_message(old(self)@.remap.len(), channel))
                && final(self).bus_log() == old(self).bus_log(),
            1 <= channel <= old(self)@.remap.len() && r is Ok ==> spec_relay_switched(
                old(self).bus_log(),
                final(self).bus_log(),
                old(self)@.outport_reg,
                old(self)@.remap[channel - 1] as int,
                state,
            ),
    {
        let num_relays = self.ch_remap.len();
        if channel < 1 || channel as usize > num_relays {
            let mut m = String::from_str("Relay channel must be 1–");
            push_decimal(&mut m, num_relays as u64);
            m.append(", got ");
            push_decimal(&mut m, channel as u64);
            return Err(BoardError { message: m });
        }
        let io_val = match self.read_output_reg() {
            Ok(v) => v,
            Err(e) => {
                return Err(e);
            },
        };
        let bit = self.ch_remap[(channel - 1) as usize];
        let next = set_port_bit(io_val, bit, state);
        let r = self.write_output_reg(next);
        proof {
            assert(spec_port_switched(io_val, next, bit as int, state));
            assert(self.log@ =~= old(self).log@ + spec_switch_events(self.outport_reg, io_val, next));
        }
        r
    }

    /// The relay outputs as a bitmask in logical order (bit `i` = relay
    /// `i + 1`), read from the output port through the remap.
    pub fn read_relay_state(&mut self) -> (r: Result<u16, BoardError>)
        requires
            spec_remap_ok(old(self)@.remap),
        ensures
            final(self)@ == old(self)@,
            r matches Ok(v) ==> spec_relay_read(
                old(self).bus_log(),
                final(self).bus_log(),
                old(self)@.outport_reg,
                v,
                old(self)@.remap,
            ),
            r is Err ==> spec_select_read_failed(
                old(self).bus_log(),
                final(self).bus_log(),
                old(self)@.outport_reg,
            ),
    {
        let raw = match self.read_output_reg() {
            Ok(v) => v,
            Err(e) => {
                return Err(e);
            },
        };
        let logical = unremap_bits(raw, self.ch_remap.as_slice());
        assert(spec_is_unremap_of(logical, raw, old(self)@.remap));
        Ok(logical)
    }

    /// The stack ID (for logging).
    pub fn stack_id(&self) -> (s: u8)
        ensures
            s == self@.stack_id,
    {
        self.stack_id
    }

    /// The number of relay channels (from the board definition).
    pub fn relay_count(&self) -> (n: usize)
        ensures
            n == self@.remap.len(),
    {
        self.ch_remap.len()
    }
}

/// Whether no two relays of `remap` share a port bit.
pub open spec fn spec_remap_injective(remap: Seq<u8>) -> bool {
    forall|i: int, j: int| 0 <= i < remap.len() && 0 <= j < remap.len() && i != j ==> remap[i]
        != remap[j]
}

/// Switching one relay changes that relay alone: when the port value
/// `after` is `before` with the bit of relay `channel` set to `state` (as
/// `set_relay` writes it), reading `after` back through an injective remap
/// shows `state` for that relay and the old state for every other relay.
pub proof fn lemma_switch_relay_alone(
    before: u16,
    after: u16,
    remap: Seq<u8>,
    channel: int,
    state: bool,
)
    requires
        spec_remap_ok(remap),
        spec_remap_injective(remap),
        1 <= channel <= remap.len(),
        forall|b: int|
            0 <= b < 16 ==> #[trigger] word_bit(after, b) == if b == remap[channel - 1] {
                state
            } else {
                word_bit(before, b)
            },
    ensures
        spec_unremap_bit(after, remap, channel - 1) == state,
        forall|i: int|
            0 <= i < remap.len() && i != channel - 1 ==> #[trigger] spec_unremap_bit(after, remap, i)
                == spec_unremap_bit(before, remap, i),
{
    assert(word_bit(after, remap[channel - 1] as int) == state);
    assert forall|i: int| 0 <= i < remap.len() && i != channel - 1 implies #[trigger] spec_unremap_bit(
        after,
        remap,
        i,
    ) == spec_unremap_bit(before, remap, i) by {
        assert(remap[i] != remap[channel - 1]);
        assert(word_bit(after, remap[i] as int) == word_bit(before, remap[i] as int));
    }
}

impl<B: I2cBus> SequentBoard for RelayBoard<B> {
    fn name(&self) -> (n: &str)
        ensures
            n@ == "Relay HAT"@,
    {
        "Relay HAT"
    }

    fn stack_id(&self) -> (s: u8)
        ensures
            s == self@.stack_id,
    {
        self.stack_id
    }

    open spec fn name_text(&self) -> Seq<char> {
        "Relay HAT"@
    }

    open spec fn stack_level(&self) -> u8 {
        self@.stack_id
    }

    open spec fn capability_list(&self) -> Seq<BoardCapability> {
        self@.capabilities
    }

    fn capabilities(&self) -> (caps: &[BoardCapability])
        ensures
            caps@ == self@.capabilities,
    {
        self.capabilities.as_slice()
    }

    fn relay_count(&self) -> (n: usize)
        ensures
            n == self@.remap.len(),
    {
        self.ch_remap.len()
    }
}

} // verus!
