//! Generic I²C driver for all Sequent Microsystems boards.
//!
//! One driver handles every board type by following the I/O group
//! descriptors of its [`BoardDef`]; adding a board needs only a TOML file.
//!
//! | `op`                | Dir    | Description                              |
//! |---------------------|--------|------------------------------------------|
//! | `read_u8_bitmask`   | input  | 1-byte bitmask → discrete inputs         |
//! | `read_u16_bitmask`  | input  | 2-byte LE bitmask → discrete inputs      |
//! | `read_u16_le`       | input  | N × 2-byte LE → holding registers        |
//! | `write_set_clr`     | output | channel number to SET/CLR register       |
//! | `write_u16_le`      | output | N × 2-byte LE from holding registers     |
//! | `pca9535_rmw_bit`   | output | read-modify-write on a 16-bit port       |
//!
//! The bus itself is reached through [`I2cBus`], whose transactions may
//! succeed or fail in any way: everything proved here holds whatever the
//! bus does.
use vstd::prelude::*;
use vstd::string::StringExecFns;

use crate::board_def::{
    copy_group, groups_view, spec_synthesized_groups, str_is, BoardDef, ChannelConfig, IoGroup,
    IoGroupView, Pca9535Config,
};
use crate::cache::{spec_bitmask_bit, spec_has_confirmed, spec_set_slot, word_bit, OutputCache};
use crate::databank::{DataBank, COIL_COUNT, DISCRETE_INPUT_COUNT, HOLDING_REGISTER_COUNT};
use crate::hal::traits::{BoardCapability, BoardError, SequentBoard};

verus! {

/// One I²C device at a fixed address.
pub trait I2cBus {
    /// Write `data` in one transaction.
    fn write(&mut self, data: &[u8]) -> Result<(), BoardError>;

    /// Read `buf.len()` bytes in one transaction.
    fn read(&mut self, buf: &mut [u8]) -> Result<(), BoardError>;
}

/// A transaction a driver made on its bus.
pub enum BusEvent {
    /// These bytes were written (whether or not the write succeeded).
    Write(Seq<u8>),
    /// A read that returned these bytes.
    Read(Seq<u8>),
    /// A read that failed.
    ReadFailed,
}

/// Write `data` on `bus`, recording the write in `log`.
pub(crate) fn logged_write<B: I2cBus>(bus: &mut B, log: &mut Ghost<Seq<BusEvent>>, data: &[u8]) -> (r:
    Result<(), BoardError>)
    ensures
        final(log)@ == old(log)@.push(BusEvent::Write(data@)),
{
    let r = bus.write(data);
    proof {
        log@ = log@.push(BusEvent::Write(data@));
    }
    r
}

/// Read `buf.len()` bytes from `bus`, recording the outcome in `log`.
pub(crate) fn logged_read<B: I2cBus>(bus: &mut B, log: &mut Ghost<Seq<BusEvent>>, buf: &mut [u8]) -> (r:
    Result<(), BoardError>)
    ensures
        final(log)@ == old(log)@.push(
            if r is Ok {
                BusEvent::Read(final(buf)@)
            } else {
                BusEvent::ReadFailed
            },
        ),
{
    let r = bus.read(buf);
    proof {
        log@ = log@.push(
            if r is Ok {
                BusEvent::Read(buf@)
            } else {
                BusEvent::ReadFailed
            },
        );
    }
    r
}

/// The bytes of `v`, low byte first.
pub open spec fn spec_le_bytes(v: u16) -> Seq<u8> {
    seq![(v % 256) as u8, (v / 256) as u8]
}

/// The events of selecting register `reg` and reading `data` back.
pub open spec fn spec_select_read(reg: u8, data: Seq<u8>) -> Seq<BusEvent> {
    seq![BusEvent::Write(seq![reg]), BusEvent::Read(data)]
}

/// `log1` is `log0` followed by a failed select-then-read of `reg`: the
/// select write, then no read (the select failed) or a failed read.
pub open spec fn spec_select_read_failed(log0: Seq<BusEvent>, log1: Seq<BusEvent>, reg: u8) -> bool {
    ||| log1 == log0.push(BusEvent::Write(seq![reg]))
    ||| log1 == log0 + seq![BusEvent::Write(seq![reg]), BusEvent::ReadFailed]
}

/// The start-up transactions on the expander: the port configuration is
/// read, and when any pin is an input (`cfg` non-zero) the output port is
/// cleared and every pin made an output.
pub open spec fn spec_pca_init_events(pca: Pca9535Config, cfg: u16) -> Seq<BusEvent> {
    spec_select_read(pca.config_reg, spec_le_bytes(cfg)) + if cfg != 0 {
        seq![
            BusEvent::Write(seq![pca.outport_reg, 0u8, 0u8]),
            BusEvent::Write(seq![pca.config_reg, 0u8, 0u8]),
        ]
    } else {
        Seq::<BusEvent>::empty()
    }
}

/// The expander start-up transactions of a board whose configuration read
/// gave `cfg`; none for a board without an expander.
pub open spec fn spec_pca_prefix(pca: Option<Pca9535Config>, cfg: u16) -> Seq<BusEvent> {
    match pca {
        Some(p) => spec_pca_init_events(p, cfg),
        None => Seq::empty(),
    }
}

/// `log1` is `log0` followed by the best-effort firmware read: nothing
/// without a revision register; else the select and, when it worked, the
/// read, whose two bytes are the firmware version (none when either
/// failed).
pub open spec fn spec_firmware_read(
    log0: Seq<BusEvent>,
    log1: Seq<BusEvent>,
    rev: Option<u8>,
    firmware: Option<(u8, u8)>,
) -> bool {
    match rev {
        None => log1 == log0 && firmware is None,
        Some(reg) => match firmware {
            Some((major, minor)) => log1 == log0 + spec_select_read(reg, seq![major, minor]),
            None => spec_select_read_failed(log0, log1, reg),
        },
    }
}

/// The start-up transactions of a board: the expander set-up, then the
/// firmware read.
pub open spec fn spec_board_init(
    log: Seq<BusEvent>,
    pca: Option<Pca9535Config>,
    rev: Option<u8>,
    firmware: Option<(u8, u8)>,
) -> bool {
    exists|cfg: u16| #[trigger] spec_firmware_read(spec_pca_prefix(pca, cfg), log, rev, firmware)
}

// ── Pure helpers ─────────────────────────────────────────────────────

/// `v × num / den`, saturated to `u16`; with `den == 0` the quotient is
/// 0 when `v × num` is 0 and saturates otherwise.
pub open spec fn spec_scale(v: u16, num: u32, den: u32) -> u16 {
    if den == 0 {
        if v * num == 0 {
            0
        } else {
            u16::MAX
        }
    } else if v * num / (den as int) > u16::MAX {
        u16::MAX
    } else {
        (v * num / (den as int)) as u16
    }
}

/// Scale a value between raw I²C units and Modbus register units.
pub fn scale_value(v: u16, num: u32, den: u32) -> (r: u16)
    ensures
        r == spec_scale(v, num, den),
{
    assert(0 <= v * num <= 0xffff * 0xffff_ffff) by (nonlinear_arith);
    let p: u64 = v as u64 * num as u64;
    if den == 0 {
        if p == 0 {
            0
        } else {
            u16::MAX
        }
    } else {
        let q = p / den as u64;
        if q > 0xffff {
            u16::MAX
        } else {
            q as u16
        }
    }
}

/// A 16-bit little-endian value from two bytes.
pub open spec fn spec_le16(lo: u8, hi: u8) -> u16 {
    (lo + hi * 256) as u16
}

pub(crate) fn le16(lo: u8, hi: u8) -> (v: u16)
    ensures
        v == spec_le16(lo, hi),
{
    lo as u16 + hi as u16 * 256
}

/// The bit position that drives channel `ch` of a read-modify-write
/// group: its remap entry when there is one, else the channel number
/// (truncated to a byte).
pub open spec fn spec_bit_of(remap: Option<Seq<u8>>, ch: int) -> int {
    match remap {
        Some(r) => if 0 <= ch < r.len() {
            r[ch] as int
        } else {
            (ch % 256) as int
        },
        None => (ch % 256) as int,
    }
}

/// Whether `region` of the data bank is `k`-th slot exists and is set by
/// bit `k - offset` of `val` under a bitmask decode.
pub open spec fn spec_decoded(old_slots: Seq<bool>, val: u16, n: int, offset: int) -> Seq<bool> {
    Seq::new(
        old_slots.len(),
        |k: int|
            if offset <= k < offset + n {
                word_bit(val, k - offset)
            } else {
                old_slots[k]
            },
    )
}

/// Number of bits decoded from a `width`-bit mask into `channels` slots.
pub open spec fn spec_decode_count(channels: usize, width: usize) -> int {
    if channels < width {
        channels as int
    } else {
        width as int
    }
}

/// Decode the low `min(channels, width)` bits of `val` into the data bank
/// region named `region` (`"discrete_input"` or `"coil"`), starting at
/// `offset`; slots past the end of the region and other regions are left
/// as they are, as is everything for another region name.
pub fn decode_bitmask(
    val: u16,
    width: usize,
    channels: usize,
    offset: usize,
    region: &str,
    db: &mut DataBank,
)
    requires
        width <= 16,
        offset + spec_decode_count(channels, width) <= usize::MAX,
    ensures
        region@ == "discrete_input"@ ==> final(db).discrete_inputs@ == spec_decoded(
            old(db).discrete_inputs@,
            val,
            spec_decode_count(channels, width),
            offset as int,
        ) && final(db).coils == old(db).coils,
        region@ == "coil"@ ==> final(db).coils@ == spec_decoded(
            old(db).coils@,
            val,
            spec_decode_count(channels, width),
            offset as int,
        ) && final(db).discrete_inputs == old(db).discrete_inputs,
        region@ != "discrete_input"@ && region@ != "coil"@ ==> final(db).coils == old(db).coils
            && final(db).discrete_inputs == old(db).discrete_inputs,
        final(db).holding_registers == old(db).holding_registers,
{
    proof {
        reveal_strlit("discrete_input");
        reveal_strlit("coil");
        assert("discrete_input"@.len() == 14);
        assert("coil"@.len() == 4);
        assert("discrete_input"@ != "coil"@);
    }
    let n = if channels < width {
        channels
    } else {
        width
    };
    let di = String::from_str("discrete_input");
    let co = String::from_str("coil");
    let r = String::from_str(region);
    if r == di {
        let ghost start = db.discrete_inputs@;
        let mut i: usize = 0;
        while i < n
            invariant
                n == spec_decode_count(channels, width),
                n <= 16,
                offset + n <= usize::MAX,
                i <= n,
                start.len() == DISCRETE_INPUT_COUNT,
                db.discrete_inputs@ == spec_decoded(start, val, i as int, offset as int),
                db.coils == old(db).coils,
                db.holding_registers == old(db).holding_registers,
            decreases n - i,
        {
            let k = offset + i;
            if k < DISCRETE_INPUT_COUNT {
                db.discrete_inputs[k] = (val >> (i as u16)) & 1u16 == 1u16;
            }
            i += 1;
            proof {
                assert(db.discrete_inputs@ =~= spec_decoded(start, val, i as int, offset as int));
            }
        }
    } else if r == co {
        let ghost start = db.coils@;
        let mut i: usize = 0;
        while i < n
            invariant
                n == spec_decode_count(channels, width),
                n <= 16,
                offset + n <= usize::MAX,
                i <= n,
                start.len() == COIL_COUNT,
                db.coils@ == spec_decoded(start, val, i as int, offset as int),
                db.discrete_inputs == old(db).discrete_inputs,
                db.holding_registers == old(db).holding_registers,
            decreases n - i,
        {
            let k = offset + i;
            if k < COIL_COUNT {
                db.coils[k] = (val >> (i as u16)) & 1u16 == 1u16;
            }
            i += 1;
            proof {
                assert(db.coils@ =~= spec_decoded(start, val, i as int, offset as int));
            }
        }
        assert(start == old(db).coils@);
        assert(db.coils@ == spec_decoded(start, val, n as int, offset as int));
    }
}

/// Logical relay state from a raw port value: bit `i` is set when the
/// port bit that drives relay `i + 1` (`remap[i]`) is set.
pub open spec fn spec_unremap_bit(raw: u16, remap: Seq<u8>, i: int) -> bool {
    0 <= i < remap.len() && word_bit(raw, remap[i] as int)
}

/// Translate a raw port value into logical relay order (bit `i` = relay
/// `i + 1`) through the channel-to-bit `remap`.
pub fn unremap_bits(raw: u16, remap: &[u8]) -> (logical: u16)
    requires
        remap@.len() <= 16,
        forall|i: int| 0 <= i < remap@.len() ==> remap@[i] < 16,
    ensures
        forall|b: int| 0 <= b < 16 ==> #[trigger] word_bit(logical, b) == spec_unremap_bit(raw, remap@, b),
{
    let mut logical: u16 = 0;
    proof {
        assert forall|b: int| 0 <= b < 16 implies !#[trigger] word_bit(0u16, b) by {
            crate::cache::lemma_zero_bit16(b as u16);
        }
    }
    let mut i: usize = 0;
    while i < remap.len()
        invariant
            remap@.len() <= 16,
            forall|j: int| 0 <= j < remap@.len() ==> remap@[j] < 16,
            i <= remap@.len(),
            forall|b: int|
                0 <= b < 16 ==> #[trigger] word_bit(logical, b) == (b < i && spec_unremap_bit(
                    raw,
                    remap@,
                    b,
                )),
        decreases remap@.len() - i,
    {
        let bit_pos = remap[i];
        let set = (raw >> (bit_pos as u16)) & 1u16 == 1u16;
        assert(set == word_bit(raw, bit_pos as int));
        if set {
            let old_logical = logical;
            logical = logical | (1u16 << (i as u16));
            proof {
                assert forall|b: int| 0 <= b < 16 implies #[trigger] word_bit(logical, b) == (b < i + 1
                    && spec_unremap_bit(raw, remap@, b)) by {
                    crate::cache::lemma_set_bit16(old_logical, i as u16, b as u16);
                    assert(word_bit(old_logical, b) == (b < i && spec_unremap_bit(raw, remap@, b)));
                    if b == i {
                        assert(word_bit(raw, remap@[b] as int));
                        assert(spec_unremap_bit(raw, remap@, b));
                    }
                }
            }
        } else {
            proof {
                assert forall|b: int| 0 <= b < 16 implies #[trigger] word_bit(logical, b) == (b < i + 1
                    && spec_unremap_bit(raw, remap@, b)) by {
                    if b == i {
                        assert(!spec_unremap_bit(raw, remap@, b));
                    }
                }
            }
        }
        i += 1;
    }
    logical
}


// ── Board layout ─────────────────────────────────────────────────────

/// The groups of `gs` whose direction is `dir`, in order.
pub open spec fn spec_with_direction(gs: Seq<IoGroupView>, dir: Seq<char>) -> Seq<IoGroupView>
    decreases gs.len(),
{
    if gs.len() == 0 {
        Seq::empty()
    } else if gs.last().direction == dir {
        spec_with_direction(gs.drop_last(), dir).push(gs.last())
    } else {
        spec_with_direction(gs.drop_last(), dir)
    }
}

/// Whether a group is the relay group used for read-back: a
/// read-modify-write group on coils.
pub open spec fn spec_is_relay_group(g: IoGroupView) -> bool {
    g.op == "pca9535_rmw_bit"@ && g.modbus_region == "coil"@
}

/// An optional index as an integer.
pub open spec fn spec_opt_index(o: Option<usize>) -> Option<int> {
    match o {
        Some(i) => Some(i as int),
        None => None,
    }
}

/// Index of the first relay group among `gs`.
pub open spec fn spec_first_relay(gs: Seq<IoGroupView>) -> Option<int>
    decreases gs.len(),
{
    if gs.len() == 0 {
        None
    } else {
        match spec_first_relay(gs.drop_last()) {
            Some(i) => Some(i),
            None => if spec_is_relay_group(gs.last()) {
                Some(gs.len() - 1)
            } else {
                None
            },
        }
    }
}

/// The bit remap of a group, empty when it has none.
pub open spec fn spec_remap_of(g: IoGroupView) -> Seq<u8> {
    match g.bit_remap {
        Some(r) => r,
        None => Seq::empty(),
    }
}

/// An input group that can be polled: its Modbus range fits in `usize`,
/// and a `read_u16_le` group has at most 128 channels (register
/// `base + 2 × channel` must fit in a byte).
pub open spec fn spec_input_group_ok(g: IoGroupView) -> bool {
    &&& g.modbus_offset + g.channels <= usize::MAX
    &&& g.op == "read_u16_le"@ ==> g.channels <= 128
}

/// An output group that can be driven: its Modbus range fits in `usize`,
/// a SET/CLR group has both registers and at most 255 channels, a
/// `write_u16_le` group a register and at most 128 channels, a
/// read-modify-write group a register and a bit below 16 for every channel.
pub open spec fn spec_output_group_ok(g: IoGroupView) -> bool {
    &&& g.modbus_offset + g.channels <= usize::MAX
    &&& g.op == "write_set_clr"@ ==> g.register_set is Some && g.register_clr is Some && g.channels
        <= 255
    &&& g.op == "write_u16_le"@ ==> g.register is Some && g.channels <= 128
    &&& g.op == "pca9535_rmw_bit"@ ==> g.register is Some && forall|ch: int|
        0 <= ch < g.channels ==> #[trigger] spec_bit_of(g.bit_remap, ch) < 16
}

/// The relay group can be read back: at most 16 remap entries, each a
/// bit of the 16-bit port.
pub open spec fn spec_relay_group_ok(g: IoGroupView) -> bool {
    &&& spec_remap_of(g).len() <= 16
    &&& forall|i: int| 0 <= i < spec_remap_of(g).len() ==> #[trigger] spec_remap_of(g)[i] < 16
}

/// A group list the driver can run without fault.
pub open spec fn spec_layout_ok(gs: Seq<IoGroupView>) -> bool {
    let ins = spec_with_direction(gs, "input"@);
    let outs = spec_with_direction(gs, "output"@);
    &&& forall|i: int| 0 <= i < ins.len() ==> #[trigger] spec_input_group_ok(ins[i])
    &&& forall|i: int| 0 <= i < outs.len() ==> #[trigger] spec_output_group_ok(outs[i])
    &&& match spec_first_relay(outs) {
        Some(i) => spec_relay_group_ok(outs[i]),
        None => true,
    }
}

/// Capabilities derived from the `[channels]` counts, in the order
/// relays, discrete inputs, discrete outputs, analog inputs, analog outputs.
pub open spec fn spec_derive_capabilities(ch: ChannelConfig) -> Seq<BoardCapability> {
    let n = |o: Option<usize>| match o {
        Some(v) => v as int,
        None => 0,
    };
    (if n(ch.relays) > 0 {
        seq![BoardCapability::Relays]
    } else {
        Seq::empty()
    }) + (if n(ch.opto_inputs) > 0 {
        seq![BoardCapability::DiscreteInputs]
    } else {
        Seq::empty()
    }) + (if n(ch.od_outputs) > 0 {
        seq![BoardCapability::DiscreteOutputs]
    } else {
        Seq::empty()
    }) + (if n(ch.analog_4_20ma_inputs) > 0 || n(ch.analog_0_10v_inputs) > 0 {
        seq![BoardCapability::AnalogInputs]
    } else {
        Seq::empty()
    }) + (if n(ch.analog_4_20ma_outputs) > 0 || n(ch.analog_0_10v_outputs) > 0 {
        seq![BoardCapability::AnalogOutputs]
    } else {
        Seq::empty()
    })
}

fn positive(o: Option<usize>) -> (b: bool)
    ensures
        b == (match o {
            Some(v) => v > 0,
            None => false,
        }),
{
    match o {
        Some(v) => v > 0,
        None => false,
    }
}

/// Derive board capabilities from the `[channels]` counts.
pub fn derive_capabilities(ch: &ChannelConfig) -> (caps: Vec<BoardCapability>)
    ensures
        caps@ == spec_derive_capabilities(*ch),
{
    let mut caps: Vec<BoardCapability> = Vec::new();
    if positive(ch.relays) {
        caps.push(BoardCapability::Relays);
    }
    let ghost a = caps@;
    if positive(ch.opto_inputs) {
        caps.push(BoardCapability::DiscreteInputs);
    }
    let ghost b = caps@;
    if positive(ch.od_outputs) {
        caps.push(BoardCapability::DiscreteOutputs);
    }
    let ghost c = caps@;
    if positive(ch.analog_4_20ma_inputs) || positive(ch.analog_0_10v_inputs) {
        caps.push(BoardCapability::AnalogInputs);
    }
    let ghost d = caps@;
    if positive(ch.analog_4_20ma_outputs) || positive(ch.analog_0_10v_outputs) {
        caps.push(BoardCapability::AnalogOutputs);
    }
    proof {
        assert(caps@ =~= spec_derive_capabilities(*ch));
    }
    caps
}

fn groups_with_direction(gs: &Vec<IoGroup>, dir: &str) -> (r: Vec<IoGroup>)
    ensures
        groups_view(r@) == spec_with_direction(groups_view(gs@), dir@),
{
    let d = String::from_str(dir);
    let mut r: Vec<IoGroup> = Vec::new();
    let mut i: usize = 0;
    while i < gs.len()
        invariant
            d@ == dir@,
            i <= gs@.len(),
            groups_view(r@) == spec_with_direction(groups_view(gs@.subrange(0, i as int)), dir@),
        decreases gs@.len() - i,
    {
        let ghost before = r@;
        proof {
            assert(groups_view(gs@.subrange(0, i + 1)).drop_last() =~= groups_view(
                gs@.subrange(0, i as int),
            ));
            assert(groups_view(gs@.subrange(0, i + 1)).last() == gs@[i as int]@);
        }
        if gs[i].direction == d {
            r.push(copy_group(&gs[i]));
            proof {
                assert(groups_view(r@) =~= groups_view(before).push(gs@[i as int]@));
            }
        }
        i += 1;
    }
    proof {
        assert(gs@.subrange(0, gs@.len() as int) =~= gs@);
    }
    r
}

fn is_relay_group(g: &IoGroup) -> (b: bool)
    ensures
        b == spec_is_relay_group(g@),
{
    str_is(&g.op, "pca9535_rmw_bit") && str_is(&g.modbus_region, "coil")
}

fn first_relay(gs: &Vec<IoGroup>) -> (r: Option<usize>)
    ensures
        spec_opt_index(r) == spec_first_relay(groups_view(gs@)),
{
    let ghost gv = groups_view(gs@);
    let mut i: usize = 0;
    while i < gs.len()
        invariant
            gv == groups_view(gs@),
            i <= gs@.len(),
            spec_first_relay(gv.subrange(0, i as int)) is None,
        decreases gs@.len() - i,
    {
        proof {
            assert(gv.subrange(0, i + 1).drop_last() =~= gv.subrange(0, i as int));
            assert(gv.subrange(0, i + 1).last() == gs@[i as int]@);
        }
        if is_relay_group(&gs[i]) {
            proof {
                lemma_first_relay_prefix(gv, i as int + 1);
            }
            return Some(i);
        }
        i += 1;
    }
    proof {
        assert(gv.subrange(0, gs@.len() as int) =~= gv);
    }
    None
}

proof fn lemma_first_relay_prefix(gs: Seq<IoGroupView>, n: int)
    requires
        0 < n <= gs.len(),
        spec_first_relay(gs.subrange(0, n)) is Some,
    ensures
        spec_first_relay(gs) == spec_first_relay(gs.subrange(0, n)),
    decreases gs.len() - n,
{
    if n < gs.len() {
        assert(gs.subrange(0, n + 1).drop_last() =~= gs.subrange(0, n));
        lemma_first_relay_prefix(gs, n + 1);
    } else {
        assert(gs.subrange(0, n) =~= gs);
    }
}

/// The first relay group is a relay group at a valid index.
pub proof fn lemma_first_relay_found(gs: Seq<IoGroupView>)
    ensures
        match spec_first_relay(gs) {
            Some(i) => 0 <= i < gs.len() && spec_is_relay_group(gs[i]) && forall|j: int|
                0 <= j < i ==> !#[trigger] spec_is_relay_group(gs[j]),
            None => forall|j: int| 0 <= j < gs.len() ==> !#[trigger] spec_is_relay_group(gs[j]),
        },
    decreases gs.len(),
{
    if gs.len() > 0 {
        let p = gs.drop_last();
        lemma_first_relay_found(p);
        match spec_first_relay(p) {
            Some(i) => {
                assert(p[i] == gs[i]);
                assert forall|j: int| 0 <= j < i implies !#[trigger] spec_is_relay_group(gs[j]) by {
                    assert(p[j] == gs[j]);
                }
            },
            None => {
                assert forall|j: int| 0 <= j < p.len() implies !#[trigger] spec_is_relay_group(gs[j]) by {
                    assert(p[j] == gs[j]);
                }
                assert(gs.last() == gs[gs.len() - 1]);
            },
        }
    }
}

/// Whether the driver can run the I/O groups of `def` without fault.
pub fn layout_supported(def: &BoardDef) -> (b: bool)
    ensures
        b == spec_layout_ok(spec_synthesized_groups(*def)),
{
    let gs = def.io_group_list();
    let ins = groups_with_direction(&gs, "input");
    let outs = groups_with_direction(&gs, "output");
    let ghost all = spec_synthesized_groups(*def);
    let mut i: usize = 0;
    while i < ins.len()
        invariant
            all == spec_synthesized_groups(*def),
            groups_view(ins@) == spec_with_direction(all, "input"@),
            i <= ins@.len(),
            forall|j: int| 0 <= j < i ==> #[trigger] spec_input_group_ok(ins@[j]@),
        decreases ins@.len() - i,
    {
        if !input_group_ok(&ins[i]) {
            proof {
                assert(groups_view(ins@)[i as int] == ins@[i as int]@);
                assert(!spec_input_group_ok(groups_view(ins@)[i as int]));
                let ghost w = spec_with_direction(all, "input"@);
                assert(!spec_input_group_ok(w[i as int]));
                assert(!spec_layout_ok(all));
            }
            return false;
        }
        i += 1;
    }
    let mut k: usize = 0;
    while k < outs.len()
        invariant
            all == spec_synthesized_groups(*def),
            groups_view(outs@) == spec_with_direction(all, "output"@),
            k <= outs@.len(),
            forall|j: int| 0 <= j < k ==> #[trigger] spec_output_group_ok(outs@[j]@),
        decreases outs@.len() - k,
    {
        if !output_group_ok(&outs[k]) {
            proof {
                assert(groups_view(outs@)[k as int] == outs@[k as int]@);
                assert(!spec_output_group_ok(groups_view(outs@)[k as int]));
            }
            return false;
        }
        k += 1;
    }
    let relay_ok = match first_relay(&outs) {
        Some(r) => {
            proof {
                lemma_first_relay_found(groups_view(outs@));
                assert(groups_view(outs@)[r as int] == outs@[r as int]@);
            }
            relay_group_ok(&outs[r])
        },
        None => true,
    };
    proof {
        assert forall|j: int| 0 <= j < groups_view(ins@).len() implies #[trigger] spec_input_group_ok(
            groups_view(ins@)[j],
        ) by {
            assert(groups_view(ins@)[j] == ins@[j]@);
        }
        assert forall|j: int| 0 <= j < groups_view(outs@).len() implies #[trigger] spec_output_group_ok(
            groups_view(outs@)[j],
        ) by {
            assert(groups_view(outs@)[j] == outs@[j]@);
        }
    }
    relay_ok
}

fn remap_bit(remap: &Option<Vec<u8>>, ch: usize) -> (b: u8)
    ensures
        b == spec_bit_of(crate::board_def::opt_bytes(*remap), ch as int),
{
    match remap {
        Some(r) => if ch < r.len() {
            r[ch]
        } else {
            (ch % 256) as u8
        },
        None => (ch % 256) as u8,
    }
}

fn input_group_ok(g: &IoGroup) -> (b: bool)
    ensures
        b == spec_input_group_ok(g@),
{
    g.channels <= usize::MAX - g.modbus_offset && (!str_is(&g.op, "read_u16_le") || g.channels
        <= 128)
}

fn output_group_ok(g: &IoGroup) -> (b: bool)
    ensures
        b == spec_output_group_ok(g@),
{
    if g.channels > usize::MAX - g.modbus_offset {
        return false;
    }
    if str_is(&g.op, "write_set_clr") {
        if g.register_set.is_none() || g.register_clr.is_none() || g.channels > 255 {
            return false;
        }
    }
    if str_is(&g.op, "write_u16_le") {
        if g.register.is_none() || g.channels > 128 {
            return false;
        }
    }
    if str_is(&g.op, "pca9535_rmw_bit") {
        if g.register.is_none() {
            return false;
        }
        let mut ch: usize = 0;
        while ch < g.channels
            invariant
                g@.op == "pca9535_rmw_bit"@,
                ch <= g.channels,
                forall|c: int| 0 <= c < ch ==> #[trigger] spec_bit_of(g@.bit_remap, c) < 16,
            decreases g.channels - ch,
        {
            if remap_bit(&g.bit_remap, ch) >= 16 {
                assert(!(spec_bit_of(g@.bit_remap, ch as int) < 16));
                return false;
            }
            ch += 1;
        }
    }
    true
}

fn relay_group_ok(g: &IoGroup) -> (b: bool)
    ensures
        b == spec_relay_group_ok(g@),
{
    match &g.bit_remap {
        Some(r) => {
            if r.len() > 16 {
                return false;
            }
            let mut i: usize = 0;
            while i < r.len()
                invariant
                    g@.bit_remap == Some(r@),
                    i <= r@.len(),
                    forall|j: int| 0 <= j < i ==> #[trigger] r@[j] < 16,
                decreases r@.len() - i,
            {
                if r[i] >= 16 {
                    assert(spec_remap_of(g@) == r@);
                    assert(!(spec_remap_of(g@)[i as int] < 16));
                    return false;
                }
                i += 1;
            }
            true
        },
        None => true,
    }
}

// ── The board ────────────────────────────────────────────────────────

/// Abstract state of a [`GenericBoard`].
pub struct BoardView {
    pub name: Seq<char>,
    pub stack_id: u8,
    /// Input groups, in definition order.
    pub inputs: Seq<IoGroupView>,
    /// Output groups, in definition order (the cache is indexed by them).
    pub outputs: Seq<IoGroupView>,
    pub capabilities: Seq<BoardCapability>,
    pub relay_count: usize,
    /// Index of the relay output group used for read-back.
    pub relay_idx: Option<int>,
    /// Output cache, one slot vector per output group.
    pub cache: Seq<Seq<Option<u16>>>,
    /// Firmware version (major, minor) read at start-up, when available.
    pub firmware: Option<(u8, u8)>,
}

/// The invariant of a board: the cache has one slot per output channel,
/// every group can run without fault, and the relay index is that of the
/// first relay group, which can be read back.
pub open spec fn spec_board_wf(v: BoardView) -> bool {
    &&& v.cache.len() == v.outputs.len()
    &&& forall|g: int| 0 <= g < v.outputs.len() ==> #[trigger] v.cache[g].len() == v.outputs[g].channels
    &&& forall|g: int| 0 <= g < v.inputs.len() ==> #[trigger] spec_input_group_ok(v.inputs[g])
    &&& forall|g: int| 0 <= g < v.outputs.len() ==> #[trigger] spec_output_group_ok(v.outputs[g])
    &&& v.relay_idx == spec_first_relay(v.outputs)
    &&& match v.relay_idx {
        Some(i) => spec_relay_group_ok(v.outputs[i]),
        None => true,
    }
}

struct Layout {
    name: String,
    stack_id: u8,
    input_groups: Vec<IoGroup>,
    output_groups: Vec<IoGroup>,
    capabilities: Vec<BoardCapability>,
    relay_count: usize,
    relay_output_idx: Option<usize>,
    cache: OutputCache,
    firmware: Option<(u8, u8)>,
}

impl Layout {
    spec fn view(&self) -> BoardView {
        BoardView {
            name: self.name@,
            stack_id: self.stack_id,
            inputs: groups_view(self.input_groups@),
            outputs: groups_view(self.output_groups@),
            capabilities: self.capabilities@,
            relay_count: self.relay_count,
            relay_idx: spec_opt_index(self.relay_output_idx),
            cache: self.cache@,
            firmware: self.firmware,
        }
    }

    #[verifier::type_invariant]
    spec fn inv(self) -> bool {
        spec_board_wf(self.view())
    }

    fn set_slot(&mut self, g: usize, ch: usize, v: Option<u16>)
        ensures
            final(self).view() == (BoardView {
                cache: spec_set_slot(old(self).view().cache, g as int, ch as int, v),
                ..old(self).view()
            }),
    {
        proof {
            use_type_invariant(&*self);
        }
        match v {
            Some(x) => self.cache.confirm(g, ch, x),
            None => self.cache.invalidate(g, ch),
        }
    }
}

/// Generic driver for any Sequent Microsystems board on the bus `B`.
pub struct GenericBoard<B: I2cBus> {
    bus: B,
    layout: Layout,
    log: Ghost<Seq<BusEvent>>,
}

impl<B: I2cBus> View for GenericBoard<B> {
    type V = BoardView;

    closed spec fn view(&self) -> BoardView {
        self.layout.view()
    }
}

/// An all-unknown cache for the groups `outs`.
pub open spec fn spec_fresh_cache(outs: Seq<IoGroupView>) -> Seq<Seq<Option<u16>>> {
    Seq::new(outs.len(), |g: int| Seq::new(outs[g].channels as nat, |i: int| None::<u16>))
}

/// The relay channel count of a channel configuration (0 when unset).
pub open spec fn spec_relays(ch: ChannelConfig) -> usize {
    match ch.relays {
        Some(n) => n,
        None => 0,
    }
}

/// `ctx: message`, as an error chain prints.
pub open spec fn spec_context(ctx: Seq<char>, e: BoardError) -> Seq<char> {
    ctx + ": "@ + e.message@
}

/// The contexts of the PCA9535 set-up steps, in order: each names the
/// transfer that failed.
pub open spec fn spec_pca_init_steps() -> Seq<Seq<char>> {
    seq![
        "PCA9535: select config register"@,
        "PCA9535: read config register"@,
        "PCA9535: clear outport"@,
        "PCA9535: set all as outputs"@,
    ]
}

/// Whether `m` reports a failed transfer of a PCA9535 set-up step: one
/// step's context, `: `, then the bus's own message.
pub open spec fn spec_pca_init_failure(m: Seq<char>) -> bool {
    exists|i: int| 0 <= i < 4 && spec_starts_with(m, #[trigger] spec_pca_init_steps()[i] + ": "@)
}

/// Whether `m` begins with `p`.
pub open spec fn spec_starts_with(m: Seq<char>, p: Seq<char>) -> bool {
    p.len() <= m.len() && m.subrange(0, p.len() as int) == p
}

proof fn pca_init_failure_witness(m: Seq<char>, i: int, inner: Seq<char>)
    requires
        0 <= i < 4,
        m == spec_pca_init_steps()[i] + ": "@ + inner,
    ensures
        spec_pca_init_failure(m),
{
    let p = spec_pca_init_steps()[i] + ": "@;
    assert(m.subrange(0, p.len() as int) =~= p);
    assert(spec_starts_with(m, p));
}

pub(crate) fn with_context(e: BoardError, ctx: &str) -> (r: BoardError)
    ensures
        r.message@ == spec_context(ctx@, e),
{
    let mut m = String::from_str(ctx);
    m.append(": ");
    m.append(e.message.as_str());
    BoardError { message: m }
}

/// Register `base + 2 × ch` (modulo 256) of a multi-channel group.
pub open spec fn spec_channel_reg(base: u8, ch: int) -> u8 {
    ((base + 2 * ch) % 256) as u8
}

pub(crate) fn channel_reg(base: u8, ch: usize) -> (r: u8)
    requires
        ch < 128,
    ensures
        r == spec_channel_reg(base, ch as int),
{
    ((base as u16 + 2 * (ch as u16)) % 256) as u8
}

impl<B: I2cBus> GenericBoard<B> {
    /// The transactions this driver has made on its bus, oldest first.
    pub closed spec fn bus_log(&self) -> Seq<BusEvent> {
        self.log@
    }

    /// Set up a board on `bus` from its definition.
    ///
    /// The I/O groups are the definition's explicit groups, or those
    /// synthesized from `[channels]` and `[registers]`.  A PCA9535 board
    /// has its port configuration read and, when any pin is an input, its
    /// output port cleared and every pin made an output; a failed transfer
    /// there is the only error, naming the step, followed by the bus's
    /// message (whether a transfer fails is the bus's outcome, which
    /// nothing here states).  A board with a revision register has its firmware
    /// version read on a best-effort basis.
    ///
    /// Only definitions whose I/O groups the driver can run are set up
    /// (see [`spec_layout_ok`]; [`layout_supported`] tells them apart): with
    /// any other layout a later poll or write could not complete, since a
    /// group would reach past the data bank, lack a register it needs or
    /// name a bit beyond its port.  Such a board is refused before it is
    /// set up rather than failing on its first poll.
    pub fn new(bus: B, stack_id: u8, def: &BoardDef) -> (r: Result<Self, BoardError>)
        requires
            spec_layout_ok(spec_synthesized_groups(*def)),
        ensures
            def.pca9535 is None ==> r is Ok,
            r matches Err(e) ==> def.pca9535 is Some && spec_pca_init_failure(e.message@),
            r matches Ok(b) ==> {
                let gs = spec_synthesized_groups(*def);
                let outs = spec_with_direction(gs, "output"@);
                &&& b@.name == def.board.name@
                &&& b@.stack_id == stack_id
                &&& b@.inputs == spec_with_direction(gs, "input"@)
                &&& b@.outputs == outs
                &&& b@.capabilities == spec_derive_capabilities(def.channels)
                &&& b@.relay_count == spec_relays(def.channels)
                &&& b@.relay_idx == spec_first_relay(outs)
                &&& b@.cache == spec_fresh_cache(outs)
                &&& def.registers.revision_major is None ==> b@.firmware is None
                &&& spec_board_wf(b@)
                &&& spec_board_init(b.bus_log(), def.pca9535, def.registers.revision_major, b@.firmware)
            },
    {
        let mut bus = bus;
        let mut log: Ghost<Seq<BusEvent>> = Ghost(Seq::empty());
        let ghost mut cfg_seen: u16 = 0;
        if let Some(pca) = def.pca9535 {
            let mut cfg_buf = [0u8; 2];
            let select = [pca.config_reg];
            assert(select@ =~= seq![pca.config_reg]);
            match logged_write(&mut bus, &mut log, &select) {
                Ok(()) => {},
                Err(e) => {
                    let ghost inner = e.message@;
                    let err = with_context(e, "PCA9535: select config register");
                    proof {
                        pca_init_failure_witness(err.message@, 0, inner);
                    }
                    return Err(err);
                },
            }
            match logged_read(&mut bus, &mut log, &mut cfg_buf) {
                Ok(()) => {},
                Err(e) => {
                    let ghost inner = e.message@;
                    let err = with_context(e, "PCA9535: read config register");
                    proof {
                        pca_init_failure_witness(err.message@, 1, inner);
                    }
                    return Err(err);
                },
            }
            let cfg_val = le16(cfg_buf[0], cfg_buf[1]);
            assert(cfg_buf@ =~= spec_le_bytes(cfg_val));
            if cfg_val != 0 {
                let clear = [pca.outport_reg, 0, 0];
                assert(clear@ =~= seq![pca.outport_reg, 0u8, 0u8]);
                match logged_write(&mut bus, &mut log, &clear) {
                    Ok(()) => {},
                    Err(e) => {
                        let ghost inner = e.message@;
                        let err = with_context(e, "PCA9535: clear outport");
                        proof {
                            pca_init_failure_witness(err.message@, 2, inner);
                        }
                        return Err(err);
                    },
                }
                let outputs = [pca.config_reg, 0, 0];
                assert(outputs@ =~= seq![pca.config_reg, 0u8, 0u8]);
                match logged_write(&mut bus, &mut log, &outputs) {
                    Ok(()) => {},
                    Err(e) => {
                        let ghost inner = e.message@;
                        let err = with_context(e, "PCA9535: set all as outputs");
                        proof {
                            pca_init_failure_witness(err.message@, 3, inner);
                        }
                        return Err(err);
                    },
                }
            }
            proof {
                cfg_seen = cfg_val;
                assert(log@ =~= spec_pca_init_events(pca, cfg_val));
            }
        }
        let ghost prefix = log@;
        assert(prefix == spec_pca_prefix(def.pca9535, cfg_seen));
        let mut firmware: Option<(u8, u8)> = None;
        if let Some(major_reg) = def.registers.revision_major {
            let mut buf = [0u8; 2];
            let select = [major_reg];
            assert(select@ =~= seq![major_reg]);
            if logged_write(&mut bus, &mut log, &select).is_ok() {
                if logged_read(&mut bus, &mut log, &mut buf).is_ok() {
                    assert(buf@ =~= seq![buf[0], buf[1]]);
                    assert(log@ =~= prefix + spec_select_read(major_reg, seq![buf[0], buf[1]]));
                    firmware = Some((buf[0], buf[1]));
                } else {
                    assert(log@ =~= prefix + seq![BusEvent::Write(seq![major_reg]), BusEvent::ReadFailed]);
                }
            }
        }
        assert(spec_firmware_read(prefix, log@, def.registers.revision_major, firmware));
        let gs = def.io_group_list();
        let input_groups = groups_with_direction(&gs, "input");
        let output_groups = groups_with_direction(&gs, "output");
        let capabilities = derive_capabilities(&def.channels);
        let relay_count = match def.channels.relays {
            Some(n) => n,
            None => 0,
        };
        let relay_output_idx = first_relay(&output_groups);
        let mut sizes: Vec<usize> = Vec::new();
        let mut i: usize = 0;
        while i < output_groups.len()
            invariant
                i <= output_groups@.len(),
                sizes@.len() == i,
                forall|j: int| 0 <= j < i ==> #[trigger] sizes@[j] == output_groups@[j].channels,
            decreases output_groups@.len() - i,
        {
            sizes.push(output_groups[i].channels);
            i += 1;
        }
        let cache = OutputCache::from_groups(sizes.as_slice());
        let ghost outs = groups_view(output_groups@);
        let ghost ins = groups_view(input_groups@);
        proof {
            assert forall|g: int| 0 <= g < outs.len() implies #[trigger] cache@[g].len()
                == outs[g].channels by {
                assert(outs[g] == output_groups@[g]@);
            }
            assert(cache@ =~= spec_fresh_cache(outs)) by {
                assert forall|g: int| 0 <= g < outs.len() implies #[trigger] cache@[g]
                    == spec_fresh_cache(outs)[g] by {
                    assert(outs[g] == output_groups@[g]@);
                }
            }
        }
        let layout = Layout {
            name: def.board.name.clone(),
            stack_id,
            input_groups,
            output_groups,
            capabilities,
            relay_count,
            relay_output_idx,
            cache,
            firmware,
        };
        Ok(GenericBoard { bus, layout, log })
    }

    /// The firmware version (major, minor) read at start-up, if any.
    pub fn firmware_version(&self) -> (v: Option<(u8, u8)>)
        ensures
            v == self@.firmware,
    {
        self.layout.firmware
    }

    // ── Low-level I²C helpers ────────────────────────────────────────

    /// Select `register`, then read `buf.len()` bytes.
    fn i2c_read(&mut self, register: u8, buf: &mut [u8]) -> (r: Result<(), BoardError>)
        ensures
            final(self)@ == old(self)@,
            r is Ok ==> final(self).bus_log() == old(self).bus_log() + spec_select_read(
                register,
                final(buf)@,
            ),
            r is Err ==> spec_select_read_failed(old(self).bus_log(), final(self).bus_log(), register),
    {
        let ghost log0 = self.log@;
        let select = [register];
        assert(select@ =~= seq![register]);
        match logged_write(&mut self.bus, &mut self.log, &select) {
            Ok(()) => {},
            Err(e) => {
                return Err(with_context(e, "I2C select"));
            },
        }
        match logged_read(&mut self.bus, &mut self.log, buf) {
            Ok(()) => {},
            Err(e) => {
                assert(self.log@ =~= log0 + seq![BusEvent::Write(seq![register]), BusEvent::ReadFailed]);
                return Err(with_context(e, "I2C read"));
            },
        }
        Ok(())
    }

    /// Write `register` followed by `data` in one transaction.
    fn i2c_write(&mut self, register: u8, data: &[u8]) -> (r: Result<(), BoardError>)
        ensures
            final(self)@ == old(self)@,
            final(self).bus_log() == old(self).bus_log().push(BusEvent::Write(seq![register] + data@)),
    {
        let mut buf: Vec<u8> = Vec::new();
        buf.push(register);
        let mut i: usize = 0;
        while i < data.len()
            invariant
                i <= data@.len(),
                buf@ == seq![register] + data@.subrange(0, i as int),
            decreases data@.len() - i,
        {
            buf.push(data[i]);
            i += 1;
            proof {
                assert(buf@ =~= seq![register] + data@.subrange(0, i as int));
            }
        }
        proof {
            assert(data@.subrange(0, data@.len() as int) =~= data@);
        }
        match logged_write(&mut self.bus, &mut self.log, buf.as_slice()) {
            Ok(()) => Ok(()),
            Err(e) => Err(with_context(e, "I2C write")),
        }
    }

    /// Read a 16-bit little-endian value from a register pair.
    fn read_u16_le_reg(&mut self, register: u8) -> (r: Result<u16, BoardError>)
        ensures
            final(self)@ == old(self)@,
            r matches Ok(v) ==> final(self).bus_log() == old(self).bus_log() + spec_select_read(
                register,
                spec_le_bytes(v),
            ),
            r is Err ==> spec_select_read_failed(old(self).bus_log(), final(self).bus_log(), register),
    {
        let mut buf = [0u8; 2];
        match self.i2c_read(register, &mut buf) {
            Ok(()) => {
                let v = le16(buf[0], buf[1]);
                assert(buf@ =~= spec_le_bytes(v));
                Ok(v)
            },
            Err(e) => Err(e),
        }
    }

    /// Write a 16-bit little-endian value to a register pair.
    fn write_u16_le_reg(&mut self, register: u8, val: u16) -> (r: Result<(), BoardError>)
        ensures
            final(self)@ == old(self)@,
            final(self).bus_log() == old(self).bus_log().push(
                BusEvent::Write(seq![register] + spec_le_bytes(val)),
            ),
    {
        let lo = (val % 256) as u8;
        let hi = (val / 256) as u8;
        let data = [lo, hi];
        assert(data@ =~= spec_le_bytes(val));
        self.i2c_write(register, &data)
    }
}

// ── Input polling ────────────────────────────────────────────────────

/// Number of bits an input op decodes: 8 for `read_u8_bitmask`, 16 for
/// `read_u16_bitmask`, none for other ops.
pub open spec fn spec_op_width(op: Seq<char>) -> int {
    if op == "read_u8_bitmask"@ {
        8
    } else if op == "read_u16_bitmask"@ {
        16
    } else {
        0
    }
}

/// Whether input group `g` writes slot `k` of the data-bank region `region`
/// (`"discrete_input"`, `"coil"` or `"holding_register"`).
pub open spec fn spec_input_targets(g: IoGroupView, region: Seq<char>, k: int) -> bool {
    if g.op == "read_u16_le"@ {
        region == "holding_register"@ && g.modbus_offset <= k < g.modbus_offset + g.channels
    } else {
        spec_op_width(g.op) > 0 && g.modbus_region == region && g.modbus_offset <= k
            < g.modbus_offset + spec_decode_count(g.channels, spec_op_width(g.op) as usize)
    }
}

/// Whether one of the first `n` input groups writes slot `k` of `region`.
pub open spec fn spec_inputs_target(ins: Seq<IoGroupView>, n: int, region: Seq<char>, k: int) -> bool {
    exists|g: int| 0 <= g < n && #[trigger] spec_input_targets(ins[g], region, k)
}

/// `db1` agrees with `db0` on every slot that none of the first `n` input
/// groups writes.
pub open spec fn spec_untargeted_kept(ins: Seq<IoGroupView>, n: int, db0: DataBank, db1: DataBank) -> bool {
    &&& forall|k: int|
        0 <= k < DISCRETE_INPUT_COUNT && !spec_inputs_target(ins, n, "discrete_input"@, k)
            ==> #[trigger] db1.discrete_inputs@[k] == db0.discrete_inputs@[k]
    &&& forall|k: int|
        0 <= k < COIL_COUNT && !spec_inputs_target(ins, n, "coil"@, k) ==> #[trigger] db1.coils@[k]
            == db0.coils@[k]
    &&& forall|k: int|
        0 <= k < HOLDING_REGISTER_COUNT && !spec_inputs_target(ins, n, "holding_register"@, k)
            ==> #[trigger] db1.holding_registers@[k] == db0.holding_registers@[k]
}

/// `db1` is `db0` with the `width`-bit mask `val` decoded into the region
/// of input group `g`, from its offset on.
pub open spec fn spec_bitmask_applied(db0: DataBank, db1: DataBank, val: u16, width: usize, g: IoGroupView) -> bool {
    let n = spec_decode_count(g.channels, width);
    let off = g.modbus_offset as int;
    &&& db1.holding_registers == db0.holding_registers
    &&& if g.modbus_region == "discrete_input"@ {
        db1.discrete_inputs@ == spec_decoded(db0.discrete_inputs@, val, n, off) && db1.coils
            == db0.coils
    } else if g.modbus_region == "coil"@ {
        db1.coils@ == spec_decoded(db0.coils@, val, n, off) && db1.discrete_inputs
            == db0.discrete_inputs
    } else {
        db1.coils == db0.coils && db1.discrete_inputs == db0.discrete_inputs
    }
}

/// A one-byte bitmask read of group `g` that gave `b`.
pub open spec fn spec_u8_read_ok(
    log0: Seq<BusEvent>,
    log1: Seq<BusEvent>,
    db0: DataBank,
    db1: DataBank,
    g: IoGroupView,
    b: u8,
) -> bool {
    &&& log1 == log0 + spec_select_read(spec_reg_or_zero(g.register), seq![b])
    &&& spec_bitmask_applied(db0, db1, b as u16, 8, g)
}

/// A two-byte bitmask read of group `g` that gave `v`.
pub open spec fn spec_u16_read_ok(
    log0: Seq<BusEvent>,
    log1: Seq<BusEvent>,
    db0: DataBank,
    db1: DataBank,
    g: IoGroupView,
    v: u16,
) -> bool {
    &&& log1 == log0 + spec_select_read(spec_reg_or_zero(g.register), spec_le_bytes(v))
    &&& spec_bitmask_applied(db0, db1, v, 16, g)
}

/// Holding registers `hr` after channel `ch` of a `read_u16_le` group read
/// `raw`: the scaled value goes to the channel's register when it lies in
/// the bank.
pub open spec fn spec_hr_stored(hr: Seq<u16>, g: IoGroupView, ch: int, raw: u16) -> Seq<u16> {
    let k = g.modbus_offset + ch;
    if k < HOLDING_REGISTER_COUNT {
        hr.update(k, spec_scale(raw, g.modbus_scale, g.i2c_scale))
    } else {
        hr
    }
}

/// Channel `ch` of a `read_u16_le` group read `raw` and stored it.
pub open spec fn spec_le_read_ok(
    la: Seq<BusEvent>,
    lb: Seq<BusEvent>,
    ha: Seq<u16>,
    hb: Seq<u16>,
    g: IoGroupView,
    ch: int,
    raw: u16,
) -> bool {
    &&& lb == la + spec_select_read(
        spec_channel_reg(spec_reg_or_zero(g.register), ch),
        spec_le_bytes(raw),
    )
    &&& hb == spec_hr_stored(ha, g, ch, raw)
}

/// One channel of a `read_u16_le` group: a read that gave some value,
/// stored; or a failed read, skipped.
pub open spec fn spec_le_channel_step(
    la: Seq<BusEvent>,
    lb: Seq<BusEvent>,
    ha: Seq<u16>,
    hb: Seq<u16>,
    g: IoGroupView,
    ch: int,
) -> bool {
    ||| exists|raw: u16| #[trigger] spec_le_read_ok(la, lb, ha, hb, g, ch, raw)
    ||| spec_select_read_failed(la, lb, spec_channel_reg(spec_reg_or_zero(g.register), ch)) && hb == ha
}

/// `logs` and `hrs` walk from `log0`/`hr0` to `log1`/`hr1` through the
/// channels of a `read_u16_le` group, one channel step at a time.
pub open spec fn spec_le_chain(
    logs: Seq<Seq<BusEvent>>,
    hrs: Seq<Seq<u16>>,
    log0: Seq<BusEvent>,
    log1: Seq<BusEvent>,
    hr0: Seq<u16>,
    hr1: Seq<u16>,
    g: IoGroupView,
) -> bool {
    let n = g.channels as int;
    &&& logs.len() == n + 1
    &&& hrs.len() == n + 1
    &&& logs[0] == log0
    &&& logs[n] == log1
    &&& hrs[0] == hr0
    &&& hrs[n] == hr1
    &&& forall|ch: int|
        0 <= ch < n ==> #[trigger] spec_le_channel_step(logs[ch], logs[ch + 1], hrs[ch], hrs[ch + 1], g, ch)
}

/// A successful read of input group `g`, from bus log `log0` and bank
/// `db0` to `log1` and `db1`: a bitmask group selects its register, reads
/// one or two bytes and decodes them into its region; a `read_u16_le` group
/// reads each channel's register and stores the scaled values it got; a
/// group with another op does nothing.
pub open spec fn spec_input_group_read(
    log0: Seq<BusEvent>,
    log1: Seq<BusEvent>,
    db0: DataBank,
    db1: DataBank,
    g: IoGroupView,
) -> bool {
    if g.op == "read_u8_bitmask"@ {
        exists|b: u8| #[trigger] spec_u8_read_ok(log0, log1, db0, db1, g, b)
    } else if g.op == "read_u16_bitmask"@ {
        exists|v: u16| #[trigger] spec_u16_read_ok(log0, log1, db0, db1, g, v)
    } else if g.op == "read_u16_le"@ {
        &&& exists|logs: Seq<Seq<BusEvent>>, hrs: Seq<Seq<u16>>|
            #[trigger] spec_le_chain(
                logs,
                hrs,
                log0,
                log1,
                db0.holding_registers@,
                db1.holding_registers@,
                g,
            )
        &&& db1.coils == db0.coils
        &&& db1.discrete_inputs == db0.discrete_inputs
    } else {
        log1 == log0 && db1 == db0
    }
}

/// `logs` and `dbs` walk from `log0`/`db0` to `log1`/`db1` through the
/// first `n` input groups of `ins`, one successful group read at a time.
pub open spec fn spec_inputs_chain(
    logs: Seq<Seq<BusEvent>>,
    dbs: Seq<DataBank>,
    log0: Seq<BusEvent>,
    log1: Seq<BusEvent>,
    db0: DataBank,
    db1: DataBank,
    ins: Seq<IoGroupView>,
    n: int,
) -> bool {
    &&& logs.len() == n + 1
    &&& dbs.len() == n + 1
    &&& logs[0] == log0
    &&& logs[n] == log1
    &&& dbs[0] == db0
    &&& dbs[n] == db1
    &&& forall|g: int|
        0 <= g < n ==> #[trigger] spec_input_group_read(logs[g], logs[g + 1], dbs[g], dbs[g + 1], ins[g])
}

/// A failed read of input group `g`: a bitmask group whose register
/// select or read failed; the bank is unchanged.
pub open spec fn spec_input_group_failed(
    log0: Seq<BusEvent>,
    log1: Seq<BusEvent>,
    db0: DataBank,
    db1: DataBank,
    g: IoGroupView,
) -> bool {
    &&& spec_op_width(g.op) > 0
    &&& spec_select_read_failed(log0, log1, spec_reg_or_zero(g.register))
    &&& db1 == db0
}

/// A poll that failed at input group `k`: the groups before it were read
/// (log `log0` to `mid`, bank `db0` to `db1`), then group `k`'s read failed
/// (log `mid` to `log1`).
pub open spec fn spec_inputs_failed_at(
    log0: Seq<BusEvent>,
    log1: Seq<BusEvent>,
    mid: Seq<BusEvent>,
    db0: DataBank,
    db1: DataBank,
    ins: Seq<IoGroupView>,
    k: int,
) -> bool {
    &&& 0 <= k < ins.len()
    &&& exists|logs: Seq<Seq<BusEvent>>, dbs: Seq<DataBank>|
        #[trigger] spec_inputs_chain(logs, dbs, log0, mid, db0, db1, ins, k)
    &&& spec_input_group_failed(mid, log1, db1, db1, ins[k])
}

/// A poll of `ins` that failed at some group.
pub open spec fn spec_inputs_failed(
    log0: Seq<BusEvent>,
    log1: Seq<BusEvent>,
    db0: DataBank,
    db1: DataBank,
    ins: Seq<IoGroupView>,
) -> bool {
    exists|k: int, mid: Seq<BusEvent>| #[trigger] spec_inputs_failed_at(log0, log1, mid, db0, db1, ins, k)
}

/// A successful poll of the input groups `ins`, group by group in order.
pub open spec fn spec_inputs_read(
    log0: Seq<BusEvent>,
    log1: Seq<BusEvent>,
    db0: DataBank,
    db1: DataBank,
    ins: Seq<IoGroupView>,
) -> bool {
    exists|logs: Seq<Seq<BusEvent>>, dbs: Seq<DataBank>|
        #[trigger] spec_inputs_chain(logs, dbs, log0, log1, db0, db1, ins, ins.len() as int)
}

proof fn lemma_strlits_differ()
    ensures
        "read_u8_bitmask"@ != "read_u16_bitmask"@,
        "read_u8_bitmask"@ != "read_u16_le"@,
        "read_u16_bitmask"@ != "read_u16_le"@,
        "discrete_input"@ != "coil"@,
        "discrete_input"@ != "holding_register"@,
        "coil"@ != "holding_register"@,
        "write_set_clr"@ != "write_u16_le"@,
        "write_set_clr"@ != "pca9535_rmw_bit"@,
        "write_u16_le"@ != "pca9535_rmw_bit"@,
{
    reveal_strlit("read_u8_bitmask");
    reveal_strlit("read_u16_bitmask");
    reveal_strlit("read_u16_le");
    reveal_strlit("discrete_input");
    reveal_strlit("coil");
    reveal_strlit("holding_register");
    reveal_strlit("write_set_clr");
    reveal_strlit("write_u16_le");
    reveal_strlit("pca9535_rmw_bit");
    assert("read_u8_bitmask"@[6] != "read_u16_bitmask"@[6]);
    assert("read_u8_bitmask"@[6] != "read_u16_le"@[6]);
    assert("read_u16_bitmask"@.len() != "read_u16_le"@.len());
    assert("discrete_input"@.len() != "coil"@.len());
    assert("discrete_input"@.len() != "holding_register"@.len());
    assert("coil"@.len() != "holding_register"@.len());
    assert("write_set_clr"@.len() != "write_u16_le"@.len());
    assert("write_set_clr"@.len() != "pca9535_rmw_bit"@.len());
    assert("write_u16_le"@.len() != "pca9535_rmw_bit"@.len());
}

impl<B: I2cBus> GenericBoard<B> {
    fn poll_group(&mut self, idx: usize, db: &mut DataBank) -> (r: Result<(), BoardError>)
        requires
            idx < old(self)@.inputs.len(),
        ensures
            final(self)@ == old(self)@,
            spec_untargeted_kept(
                seq![old(self)@.inputs[idx as int]],
                1,
                *old(db),
                *final(db),
            ),
            r is Ok ==> spec_input_group_read(
                old(self).bus_log(),
                final(self).bus_log(),
                *old(db),
                *final(db),
                old(self)@.inputs[idx as int],
            ),
            r is Err ==> spec_input_group_failed(
                old(self).bus_log(),
                final(self).bus_log(),
                *old(db),
                *final(db),
                old(self)@.inputs[idx as int],
            ),
    {
        let ghost log0 = self.log@;
        proof {
            use_type_invariant(&self.layout);
            lemma_strlits_differ();
        }
        let ghost g = self@.inputs[idx as int];
        let ghost ins1 = seq![g];
        assert(g == self.layout.input_groups@[idx as int]@);
        assert(spec_input_group_ok(g));
        let is_u8 = str_is(&self.layout.input_groups[idx].op, "read_u8_bitmask");
        let is_u16 = str_is(&self.layout.input_groups[idx].op, "read_u16_bitmask");
        let is_le = str_is(&self.layout.input_groups[idx].op, "read_u16_le");
        let register = match self.layout.input_groups[idx].register {
            Some(r) => r,
            None => 0,
        };
        let channels = self.layout.input_groups[idx].channels;
        let offset = self.layout.input_groups[idx].modbus_offset;
        let region = self.layout.input_groups[idx].modbus_region.clone();
        let i2c_scale = self.layout.input_groups[idx].i2c_scale;
        let modbus_scale = self.layout.input_groups[idx].modbus_scale;
        let ghost db0 = *db;
        assert(register == spec_reg_or_zero(g.register));
        assert(region@ == g.modbus_region);
        if is_u8 {
            let mut buf = [0u8; 1];
            match self.i2c_read(register, &mut buf) {
                Ok(()) => {},
                Err(e) => {
                    return Err(e);
                },
            }
            let b = buf[0];
            assert(buf@ =~= seq![b]);
            decode_bitmask(b as u16, 8, channels, offset, region.as_str(), db);
            assert(spec_u8_read_ok(log0, self.log@, db0, *db, g, b));
            proof {
                assert forall|k: int|
                    0 <= k < DISCRETE_INPUT_COUNT && !spec_inputs_target(
                        ins1,
                        1,
                        "discrete_input"@,
                        k,
                    ) implies #[trigger] db.discrete_inputs@[k] == db0.discrete_inputs@[k] by {
                    assert(!spec_input_targets(ins1[0], "discrete_input"@, k));
                }
                assert forall|k: int|
                    0 <= k < COIL_COUNT && !spec_inputs_target(ins1, 1, "coil"@, k) implies #[trigger] db.coils@[k]
                    == db0.coils@[k] by {
                    assert(!spec_input_targets(ins1[0], "coil"@, k));
                }
            }
        } else if is_u16 {
            let val = match self.read_u16_le_reg(register) {
                Ok(v) => v,
                Err(e) => {
                    return Err(e);
                },
            };
            decode_bitmask(val, 16, channels, offset, region.as_str(), db);
            assert(spec_u16_read_ok(log0, self.log@, db0, *db, g, val));
            proof {
                assert forall|k: int|
                    0 <= k < DISCRETE_INPUT_COUNT && !spec_inputs_target(
                        ins1,
                        1,
                        "discrete_input"@,
                        k,
                    ) implies #[trigger] db.discrete_inputs@[k] == db0.discrete_inputs@[k] by {
                    assert(!spec_input_targets(ins1[0], "discrete_input"@, k));
                }
                assert forall|k: int|
                    0 <= k < COIL_COUNT && !spec_inputs_target(ins1, 1, "coil"@, k) implies #[trigger] db.coils@[k]
                    == db0.coils@[k] by {
                    assert(!spec_input_targets(ins1[0], "coil"@, k));
                }
            }
        } else if is_le {
            let ghost mut logs: Seq<Seq<BusEvent>> = seq![log0];
            let ghost mut hrs: Seq<Seq<u16>> = seq![db0.holding_registers@];
            let mut ch: usize = 0;
            while ch < channels
                invariant
                    logs.len() == ch + 1,
                    hrs.len() == ch + 1,
                    logs[0] == log0,
                    hrs[0] == db0.holding_registers@,
                    logs[ch as int] == self.log@,
                    hrs[ch as int] == db.holding_registers@,
                    forall|c: int|
                        0 <= c < ch ==> #[trigger] spec_le_channel_step(
                            logs[c],
                            logs[c + 1],
                            hrs[c],
                            hrs[c + 1],
                            g,
                            c,
                        ),
                    register == spec_reg_or_zero(g.register),
                    i2c_scale == g.i2c_scale,
                    modbus_scale == g.modbus_scale,
                    self@ == old(self)@,
                    g == old(self)@.inputs[idx as int],
                    ins1 == seq![g],
                    g.op == "read_u16_le"@,
                    g.channels == channels,
                    g.modbus_offset == offset,
                    channels <= 128,
                    offset + channels <= usize::MAX,
                    ch <= channels,
                    db.discrete_inputs == db0.discrete_inputs,
                    db.coils == db0.coils,
                    forall|k: int|
                        0 <= k < HOLDING_REGISTER_COUNT && !(offset <= k < offset + channels)
                            ==> #[trigger] db.holding_registers@[k] == db0.holding_registers@[k],
                decreases channels - ch,
            {
                let reg = channel_reg(register, ch);
                let ghost la = self.log@;
                let ghost ha = db.holding_registers@;
                match self.read_u16_le_reg(reg) {
                    Ok(raw) => {
                        let v = scale_value(raw, modbus_scale, i2c_scale);
                        if offset + ch < HOLDING_REGISTER_COUNT {
                            db.holding_registers[offset + ch] = v;
                        }
                        proof {
                            assert(db.holding_registers@ =~= spec_hr_stored(ha, g, ch as int, raw));
                            assert(spec_le_read_ok(la, self.log@, ha, db.holding_registers@, g, ch as int, raw));
                        }
                    },
                    Err(_) => {},
                }
                proof {
                    assert(spec_le_channel_step(la, self.log@, ha, db.holding_registers@, g, ch as int));
                    let logs1 = logs.push(self.log@);
                    let hrs1 = hrs.push(db.holding_registers@);
                    assert forall|c: int| 0 <= c < ch + 1 implies #[trigger] spec_le_channel_step(
                        logs1[c],
                        logs1[c + 1],
                        hrs1[c],
                        hrs1[c + 1],
                        g,
                        c,
                    ) by {
                        if c < ch {
                            assert(spec_le_channel_step(logs[c], logs[c + 1], hrs[c], hrs[c + 1], g, c));
                        }
                    }
                    logs = logs1;
                    hrs = hrs1;
                }
                ch += 1;
            }
            assert(spec_le_chain(
                logs,
                hrs,
                log0,
                self.log@,
                db0.holding_registers@,
                db.holding_registers@,
                g,
            ));
            proof {
                assert forall|k: int|
                    0 <= k < HOLDING_REGISTER_COUNT && !spec_inputs_target(
                        ins1,
                        1,
                        "holding_register"@,
                        k,
                    ) implies #[trigger] db.holding_registers@[k] == db0.holding_registers@[k] by {
                    assert(!spec_input_targets(ins1[0], "holding_register"@, k));
                }
            }
        }
        Ok(())
    }
}

proof fn lemma_untargeted_step(ins: Seq<IoGroupView>, n: int, db0: DataBank, db1: DataBank, db2: DataBank)
    requires
        0 <= n < ins.len(),
        spec_untargeted_kept(ins, n, db0, db1),
        spec_untargeted_kept(seq![ins[n]], 1, db1, db2),
    ensures
        spec_untargeted_kept(ins, n + 1, db0, db2),
{
    assert forall|k: int|
        0 <= k < DISCRETE_INPUT_COUNT && !spec_inputs_target(
            ins,
            n + 1,
            "discrete_input"@,
            k,
        ) implies #[trigger] db2.discrete_inputs@[k] == db0.discrete_inputs@[k] by {
        assert(!spec_input_targets(ins[n], "discrete_input"@, k));
        assert(!spec_input_targets(seq![ins[n]][0], "discrete_input"@, k));
        assert(db1.discrete_inputs@[k] == db0.discrete_inputs@[k]);
    }
    assert forall|k: int|
        0 <= k < COIL_COUNT && !spec_inputs_target(ins, n + 1, "coil"@, k) implies #[trigger] db2.coils@[k]
        == db0.coils@[k] by {
        assert(!spec_input_targets(ins[n], "coil"@, k));
        assert(!spec_input_targets(seq![ins[n]][0], "coil"@, k));
        assert(db1.coils@[k] == db0.coils@[k]);
    }
    assert forall|k: int|
        0 <= k < HOLDING_REGISTER_COUNT && !spec_inputs_target(
            ins,
            n + 1,
            "holding_register"@,
            k,
        ) implies #[trigger] db2.holding_registers@[k] == db0.holding_registers@[k] by {
        assert(!spec_input_targets(ins[n], "holding_register"@, k));
        assert(!spec_input_targets(seq![ins[n]][0], "holding_register"@, k));
        assert(db1.holding_registers@[k] == db0.holding_registers@[k]);
    }
}

impl<B: I2cBus> GenericBoard<B> {
    /// Read every input group into the data bank, in order; a failed
    /// bitmask read ends the poll with its error, a failed channel of a
    /// `read_u16_le` group is skipped.
    fn poll_all(&mut self, db: &mut DataBank) -> (r: Result<(), BoardError>)
        ensures
            final(self)@ == old(self)@,
            spec_untargeted_kept(old(self)@.inputs, old(self)@.inputs.len() as int, *old(db), *final(db)),
            r is Ok ==> spec_inputs_read(
                old(self).bus_log(),
                final(self).bus_log(),
                *old(db),
                *final(db),
                old(self)@.inputs,
            ),
            r is Err ==> exists|g: int|
                0 <= g < old(self)@.inputs.len() && spec_op_width(#[trigger] old(self)@.inputs[g].op) > 0,
            r is Err ==> spec_inputs_failed(
                old(self).bus_log(),
                final(self).bus_log(),
                *old(db),
                *final(db),
                old(self)@.inputs,
            ),
    {
        let ghost db0 = *db;
        let ghost log0 = self.log@;
        let ghost ins = self@.inputs;
        let ghost mut logs: Seq<Seq<BusEvent>> = seq![log0];
        let ghost mut dbs: Seq<DataBank> = seq![db0];
        let n = self.layout.input_groups.len();
        assert(n == ins.len());
        let mut idx: usize = 0;
        while idx < n
            invariant
                self@ == old(self)@,
                ins == old(self)@.inputs,
                n == ins.len(),
                idx <= n,
                db0 == *old(db),
                log0 == old(self).bus_log(),
                spec_untargeted_kept(ins, idx as int, db0, *db),
                spec_inputs_chain(logs, dbs, log0, self.log@, db0, *db, ins, idx as int),
            decreases n - idx,
        {
            let ghost db1 = *db;
            let ghost log1 = self.log@;
            let r = self.poll_group(idx, db);
            proof {
                lemma_untargeted_step(ins, idx as int, db0, db1, *db);
                if r is Ok {
                    let logs1 = logs.push(self.log@);
                    let dbs1 = dbs.push(*db);
                    assert forall|g: int| 0 <= g < idx + 1 implies #[trigger] spec_input_group_read(
                        logs1[g],
                        logs1[g + 1],
                        dbs1[g],
                        dbs1[g + 1],
                        ins[g],
                    ) by {
                        if g < idx {
                            assert(spec_input_group_read(logs[g], logs[g + 1], dbs[g], dbs[g + 1], ins[g]));
                        }
                    }
                    assert(spec_inputs_chain(logs1, dbs1, log0, self.log@, db0, *db, ins, idx + 1));
                    logs = logs1;
                    dbs = dbs1;
                }
            }
            match r {
                Ok(()) => {},
                Err(e) => {
                    proof {
                        lemma_untargeted_grow(ins, idx as int + 1, n as int, db0, *db);
                        assert(spec_inputs_chain(logs, dbs, log0, log1, db0, db1, ins, idx as int));
                        assert(spec_inputs_failed_at(log0, self.log@, log1, db0, *db, ins, idx as int));
                    }
                    return Err(e);
                },
            }
            idx += 1;
        }
        Ok(())
    }
}

proof fn lemma_untargeted_grow(ins: Seq<IoGroupView>, m: int, n: int, db0: DataBank, db1: DataBank)
    requires
        0 <= m <= n,
        spec_untargeted_kept(ins, m, db0, db1),
    ensures
        spec_untargeted_kept(ins, n, db0, db1),
{
    assert forall|k: int|
        0 <= k < DISCRETE_INPUT_COUNT && !spec_inputs_target(ins, n, "discrete_input"@, k) implies #[trigger] db1.discrete_inputs@[k]
        == db0.discrete_inputs@[k] by {
        if spec_inputs_target(ins, m, "discrete_input"@, k) {
            let g = choose|g: int| 0 <= g < m && #[trigger] spec_input_targets(ins[g], "discrete_input"@, k);
            assert(spec_input_targets(ins[g], "discrete_input"@, k));
        }
    }
    assert forall|k: int|
        0 <= k < COIL_COUNT && !spec_inputs_target(ins, n, "coil"@, k) implies #[trigger] db1.coils@[k]
        == db0.coils@[k] by {
        if spec_inputs_target(ins, m, "coil"@, k) {
            let g = choose|g: int| 0 <= g < m && #[trigger] spec_input_targets(ins[g], "coil"@, k);
            assert(spec_input_targets(ins[g], "coil"@, k));
        }
    }
    assert forall|k: int|
        0 <= k < HOLDING_REGISTER_COUNT && !spec_inputs_target(ins, n, "holding_register"@, k) implies #[trigger] db1.holding_registers@[k]
        == db0.holding_registers@[k] by {
        if spec_inputs_target(ins, m, "holding_register"@, k) {
            let g = choose|g: int| 0 <= g < m && #[trigger] spec_input_targets(ins[g], "holding_register"@, k);
            assert(spec_input_targets(ins[g], "holding_register"@, k));
        }
    }
}

// ── Output application ───────────────────────────────────────────────

/// Coil `k` of the data bank, off when out of range.
pub open spec fn spec_coil_at(db: DataBank, k: int) -> bool {
    if 0 <= k < COIL_COUNT {
        db.coils@[k]
    } else {
        false
    }
}

/// Holding register `k` of the data bank, 0 when out of range.
pub open spec fn spec_hr_at(db: DataBank, k: int) -> u16 {
    if 0 <= k < HOLDING_REGISTER_COUNT {
        db.holding_registers@[k]
    } else {
        0
    }
}

/// The value channel `ch` of output group `g` should hold for the data
/// bank `db`: its holding register for `write_u16_le`, else its coil as
/// 0 / 1.
pub open spec fn spec_desired(g: IoGroupView, db: DataBank, ch: int) -> u16 {
    if g.op == "write_u16_le"@ {
        spec_hr_at(db, g.modbus_offset + ch)
    } else if spec_coil_at(db, g.modbus_offset + ch) {
        1
    } else {
        0
    }
}

/// Output ops the driver knows; groups with other ops are skipped.
pub open spec fn spec_known_output_op(op: Seq<char>) -> bool {
    op == "write_set_clr"@ || op == "write_u16_le"@ || op == "pca9535_rmw_bit"@
}

/// A cache slot after an output pass: as it was, confirmed with the
/// desired value, or forgotten after a failed write.
pub open spec fn spec_slot_step(before: Option<u16>, after: Option<u16>, desired: u16) -> bool {
    after == before || after == Some(desired) || after is None
}

/// The cache `c1` after applying output group `idx` of `outs` to `c0`:
/// other groups untouched, every slot of the group stepped, and every slot
/// confirmed with its desired value when `done`.
pub open spec fn spec_group_applied(
    c0: Seq<Seq<Option<u16>>>,
    c1: Seq<Seq<Option<u16>>>,
    outs: Seq<IoGroupView>,
    idx: int,
    db: DataBank,
    done: bool,
) -> bool {
    &&& c1.len() == c0.len()
    &&& forall|g: int| 0 <= g < c0.len() && g != idx ==> #[trigger] c1[g] == c0[g]
    &&& forall|ch: int|
        0 <= ch < outs[idx].channels ==> #[trigger] spec_slot_step(
            c0[idx][ch],
            c1[idx][ch],
            spec_desired(outs[idx], db, ch),
        )
    &&& done ==> forall|ch: int|
        0 <= ch < outs[idx].channels ==> #[trigger] c1[idx][ch] == Some(
            spec_desired(outs[idx], db, ch),
        )
}

/// Every channel of output group `idx` of `outs` already holds its
/// desired value in the cache `c`.
pub open spec fn spec_group_settled(
    c: Seq<Seq<Option<u16>>>,
    outs: Seq<IoGroupView>,
    idx: int,
    db: DataBank,
) -> bool {
    forall|ch: int|
        0 <= ch < outs[idx].channels ==> #[trigger] c[idx][ch] == Some(spec_desired(outs[idx], db, ch))
}

/// Every channel of every output group with a known op already holds its
/// desired value in the cache `c`.
pub open spec fn spec_outputs_settled(c: Seq<Seq<Option<u16>>>, outs: Seq<IoGroupView>, db: DataBank) -> bool {
    forall|g: int, ch: int|
        0 <= g < outs.len() && spec_known_output_op(outs[g].op) && 0 <= ch < outs[g].channels
            ==> #[trigger] c[g][ch] == Some(spec_desired(outs[g], db, ch))
}

/// Whether channel `ch` of output group `g` needs writing: its cached
/// value in `row` is not the desired one.
pub open spec fn spec_needs_write(row: Seq<Option<u16>>, g: IoGroupView, db: DataBank, ch: int) -> bool {
    row[ch] != Some(spec_desired(g, db, ch))
}

/// A register of a group, 0 when it names none.
pub open spec fn spec_reg_or_zero(r: Option<u8>) -> u8 {
    match r {
        Some(v) => v,
        None => 0,
    }
}

/// The writes of a SET/CLR group over its first `n` channels: one per
/// channel that needs writing, in channel order, of the SET register (coil
/// on) or the CLR register (coil off) followed by the 1-based channel.
pub open spec fn spec_set_clr_events(g: IoGroupView, row: Seq<Option<u16>>, db: DataBank, n: int) -> Seq<
    BusEvent,
>
    decreases n,
{
    if n <= 0 {
        Seq::empty()
    } else {
        spec_set_clr_events(g, row, db, n - 1) + if spec_needs_write(row, g, db, n - 1) {
            seq![
                BusEvent::Write(
                    seq![
                        if spec_coil_at(db, g.modbus_offset + n - 1) {
                            spec_reg_or_zero(g.register_set)
                        } else {
                            spec_reg_or_zero(g.register_clr)
                        },
                        n as u8,
                    ],
                ),
            ]
        } else {
            Seq::empty()
        }
    }
}

/// The writes of a 16-bit output group over its first `n` channels: one
/// per channel that needs writing, in channel order, of the channel's
/// register followed by the scaled value, low byte first.
pub open spec fn spec_u16_events(g: IoGroupView, row: Seq<Option<u16>>, db: DataBank, n: int) -> Seq<
    BusEvent,
>
    decreases n,
{
    if n <= 0 {
        Seq::empty()
    } else {
        spec_u16_events(g, row, db, n - 1) + if spec_needs_write(row, g, db, n - 1) {
            seq![
                BusEvent::Write(
                    seq![spec_channel_reg(spec_reg_or_zero(g.register), n - 1)] + spec_le_bytes(
                        spec_scale(spec_desired(g, db, n - 1), g.i2c_scale, g.modbus_scale),
                    ),
                ),
            ]
        } else {
            Seq::empty()
        }
    }
}

/// The port value of a read-modify-write group after its first `n`
/// channels are applied to the value `raw` read from the port: the bit of
/// every channel that needs writing is set to the channel's coil, in
/// channel order.
pub open spec fn spec_rmw_value(raw: u16, g: IoGroupView, row: Seq<Option<u16>>, db: DataBank, n: int) -> u16
    decreases n,
{
    if n <= 0 {
        raw
    } else {
        let v = spec_rmw_value(raw, g, row, db, n - 1);
        if spec_needs_write(row, g, db, n - 1) {
            spec_port_set(
                v,
                spec_bit_of(g.bit_remap, n - 1) as u8,
                spec_coil_at(db, g.modbus_offset + n - 1),
            )
        } else {
            v
        }
    }
}

/// Whether some channel of group `g` needs writing.
pub open spec fn spec_any_needs_write(g: IoGroupView, row: Seq<Option<u16>>, db: DataBank) -> bool {
    exists|ch: int| 0 <= ch < g.channels && #[trigger] spec_needs_write(row, g, db, ch)
}

/// The transactions of a read-modify-write group whose port read gave
/// `raw`: the port is read, then written back with the changed bits.
pub open spec fn spec_rmw_events(raw: u16, g: IoGroupView, row: Seq<Option<u16>>, db: DataBank) -> Seq<
    BusEvent,
> {
    let reg = spec_reg_or_zero(g.register);
    spec_select_read(reg, spec_le_bytes(raw)).push(
        BusEvent::Write(seq![reg] + spec_le_bytes(spec_rmw_value(raw, g, row, db, g.channels as int))),
    )
}

/// `log1` is `log0` followed by the transactions of a successful
/// read-modify-write group: none when no channel needs writing, else one
/// read of the port and one write of the changed value.
pub open spec fn spec_rmw_applied(
    log0: Seq<BusEvent>,
    log1: Seq<BusEvent>,
    g: IoGroupView,
    row: Seq<Option<u16>>,
    db: DataBank,
) -> bool {
    if spec_any_needs_write(g, row, db) {
        exists|raw: u16| log1 == log0 + #[trigger] spec_rmw_events(raw, g, row, db)
    } else {
        log1 == log0
    }
}

/// `log1` is `log0` followed by the transactions of a successful pass of
/// output group `g` from the cache row `row`; a group with an unknown op
/// makes none.
pub open spec fn spec_group_log(
    log0: Seq<BusEvent>,
    log1: Seq<BusEvent>,
    g: IoGroupView,
    row: Seq<Option<u16>>,
    db: DataBank,
) -> bool {
    if g.op == "write_set_clr"@ {
        log1 == log0 + spec_set_clr_events(g, row, db, g.channels as int)
    } else if g.op == "write_u16_le"@ {
        log1 == log0 + spec_u16_events(g, row, db, g.channels as int)
    } else if g.op == "pca9535_rmw_bit"@ {
        spec_rmw_applied(log0, log1, g, row, db)
    } else {
        log1 == log0
    }
}

/// `logs` walks from `log0` to `log1` through the first `n` output groups
/// of `outs`: `logs[g + 1]` is `logs[g]` followed by the transactions of a
/// successful pass of group `g` from its cache row in `c`.
pub open spec fn spec_log_chain(
    logs: Seq<Seq<BusEvent>>,
    log0: Seq<BusEvent>,
    log1: Seq<BusEvent>,
    outs: Seq<IoGroupView>,
    c: Seq<Seq<Option<u16>>>,
    db: DataBank,
    n: int,
) -> bool {
    &&& logs.len() == n + 1
    &&& logs[0] == log0
    &&& logs[n] == log1
    &&& forall|g: int| 0 <= g < n ==> #[trigger] spec_group_log(logs[g], logs[g + 1], outs[g], c[g], db)
}

/// `log1` is `log0` followed by the transactions of a successful pass over
/// the first `n` output groups of `outs` from the cache `c`, group by
/// group in order.
pub open spec fn spec_outputs_log(
    log0: Seq<BusEvent>,
    log1: Seq<BusEvent>,
    outs: Seq<IoGroupView>,
    c: Seq<Seq<Option<u16>>>,
    db: DataBank,
    n: int,
) -> bool {
    exists|logs: Seq<Seq<BusEvent>>| #[trigger] spec_log_chain(logs, log0, log1, outs, c, db, n)
}

/// A per-channel pass (SET/CLR or 16-bit) of group `g` that failed at
/// channel `ch`: the channels before it were handled (written where they
/// needed it, then confirmed), its write was sent and failed, so its slot
/// is forgotten, and the later channels were neither written nor touched.
pub open spec fn spec_channel_failure(
    log0: Seq<BusEvent>,
    log1: Seq<BusEvent>,
    row0: Seq<Option<u16>>,
    row1: Seq<Option<u16>>,
    g: IoGroupView,
    db: DataBank,
    ch: int,
) -> bool {
    &&& 0 <= ch < g.channels
    &&& spec_needs_write(row0, g, db, ch)
    &&& log1 == log0 + if g.op == "write_set_clr"@ {
        spec_set_clr_events(g, row0, db, ch + 1)
    } else {
        spec_u16_events(g, row0, db, ch + 1)
    }
    &&& row1.len() == row0.len()
    &&& row1[ch] is None
    &&& forall|j: int| 0 <= j < ch ==> #[trigger] row1[j] == Some(spec_desired(g, db, j))
    &&& forall|j: int| ch < j < row0.len() ==> #[trigger] row1[j] == row0[j]
}

/// A pass of output group `g` that failed, from log `log0` and cache row
/// `row0` to `log1` and `row1`: a per-channel group failed at one channel
/// (see [`spec_channel_failure`]); a read-modify-write group either could
/// not read the port (nothing else changed) or read it and failed to write
/// it back (every slot of the group forgotten).
pub open spec fn spec_group_failed(
    log0: Seq<BusEvent>,
    log1: Seq<BusEvent>,
    row0: Seq<Option<u16>>,
    row1: Seq<Option<u16>>,
    g: IoGroupView,
    db: DataBank,
) -> bool {
    if g.op == "write_set_clr"@ || g.op == "write_u16_le"@ {
        exists|ch: int| #[trigger] spec_channel_failure(log0, log1, row0, row1, g, db, ch)
    } else if g.op == "pca9535_rmw_bit"@ {
        ||| spec_select_read_failed(log0, log1, spec_reg_or_zero(g.register)) && row1 == row0
        ||| (exists|raw: u16| log1 == log0 + #[trigger] spec_rmw_events(raw, g, row0, db))
            && row1.len() == row0.len() && forall|j: int| 0 <= j < row0.len() ==> #[trigger] row1[j] is None
    } else {
        false
    }
}

fn coil_at(db: &DataBank, k: usize) -> (b: bool)
    ensures
        b == spec_coil_at(*db, k as int),
{
    if k < COIL_COUNT {
        db.coils[k]
    } else {
        false
    }
}

fn hr_at(db: &DataBank, k: usize) -> (v: u16)
    ensures
        v == spec_hr_at(*db, k as int),
{
    if k < HOLDING_REGISTER_COUNT {
        db.holding_registers[k]
    } else {
        0
    }
}

/// `word` with bit `bit` set when `on`, cleared otherwise.
pub open spec fn spec_port_set(word: u16, bit: u8, on: bool) -> u16 {
    if on {
        word | (1u16 << (bit as u16))
    } else {
        word & !(1u16 << (bit as u16))
    }
}

/// The 16-bit port value with bit `bit` set when `on`, cleared otherwise.
pub fn set_port_bit(word: u16, bit: u8, on: bool) -> (r: u16)
    requires
        bit < 16,
    ensures
        r == spec_port_set(word, bit, on),
        forall|b: int|
            0 <= b < 16 ==> #[trigger] word_bit(r, b) == if b == bit {
                on
            } else {
                word_bit(word, b)
            },
{
    if on {
        let r = word | (1u16 << (bit as u16));
        proof {
            assert forall|b: int| 0 <= b < 16 implies #[trigger] word_bit(r, b) == if b == bit {
                on
            } else {
                word_bit(word, b)
            } by {
                crate::cache::lemma_set_bit16(word, bit as u16, b as u16);
            }
        }
        r
    } else {
        let r = word & !(1u16 << (bit as u16));
        proof {
            assert forall|b: int| 0 <= b < 16 implies #[trigger] word_bit(r, b) == if b == bit {
                on
            } else {
                word_bit(word, b)
            } by {
                lemma_clear_bit16(word, bit as u16, b as u16);
            }
        }
        r
    }
}

proof fn lemma_clear_bit16(v: u16, i: u16, b: u16)
    requires
        i < 16,
        b < 16,
    ensures
        ((v & !(1u16 << i)) >> b) & 1u16 == 1u16 <==> ((v >> b) & 1u16 == 1u16 && b != i),
{
    assert(((v & !(1u16 << i)) >> b) & 1u16 == 1u16 <==> ((v >> b) & 1u16 == 1u16 && b != i))
        by (bit_vector)
        requires
            i < 16,
            b < 16,
    ;
}

impl<B: I2cBus> GenericBoard<B> {
    fn apply_set_clr(&mut self, idx: usize, db: &DataBank) -> (r: Result<(), BoardError>)
        requires
            idx < old(self)@.outputs.len(),
            old(self)@.outputs[idx as int].op == "write_set_clr"@,
        ensures
            final(self)@ == (BoardView { cache: final(self)@.cache, ..old(self)@ }),
            spec_group_applied(old(self)@.cache, final(self)@.cache, old(self)@.outputs, idx as int, *db, r is Ok),
            spec_group_settled(old(self)@.cache, old(self)@.outputs, idx as int, *db)
                ==> final(self).bus_log() == old(self).bus_log() && r is Ok,
            r is Ok ==> final(self).bus_log() == old(self).bus_log() + spec_set_clr_events(
                old(self)@.outputs[idx as int],
                old(self)@.cache[idx as int],
                *db,
                old(self)@.outputs[idx as int].channels as int,
            ),            r is Err ==> spec_group_failed(
                old(self).bus_log(),
                final(self).bus_log(),
                old(self)@.cache[idx as int],
                final(self)@.cache[idx as int],
                old(self)@.outputs[idx as int],
                *db,
            ),
    {
        let ghost log0 = self.log@;
        proof {
            use_type_invariant(&self.layout);
            lemma_strlits_differ();
        }
        let ghost v0 = self@;
        let ghost g = v0.outputs[idx as int];
        assert(g == self.layout.output_groups@[idx as int]@);
        assert(spec_output_group_ok(g));
        let reg_set = match self.layout.output_groups[idx].register_set {
            Some(r) => r,
            None => 0,
        };
        let reg_clr = match self.layout.output_groups[idx].register_clr {
            Some(r) => r,
            None => 0,
        };
        let channels = self.layout.output_groups[idx].channels;
        let offset = self.layout.output_groups[idx].modbus_offset;
        let mut ch: usize = 0;
        while ch < channels
            invariant
                v0 == old(self)@,
                self@ == (BoardView { cache: self@.cache, ..v0 }),
                spec_board_wf(self@),
                v0.outputs[idx as int] == g,
                idx < v0.outputs.len(),
                g.op == "write_set_clr"@,
                g.channels == channels,
                g.modbus_offset == offset,
                log0 == old(self).bus_log(),
                spec_group_settled(v0.cache, v0.outputs, idx as int, *db) ==> self.log@ == log0,
                self.log@ == log0 + spec_set_clr_events(g, v0.cache[idx as int], *db, ch as int),
                reg_set == spec_reg_or_zero(g.register_set),
                reg_clr == spec_reg_or_zero(g.register_clr),
                v0.cache.len() == v0.outputs.len(),
                v0.cache[idx as int].len() == channels,
                channels <= 255,
                offset + channels <= usize::MAX,
                ch <= channels,
                spec_group_applied(v0.cache, self@.cache, v0.outputs, idx as int, *db, false),
                forall|j: int| 0 <= j < ch ==> #[trigger] self@.cache[idx as int][j] == Some(
                    spec_desired(g, *db, j),
                ),
                forall|j: int| ch <= j < channels ==> #[trigger] self@.cache[idx as int][j]
                    == v0.cache[idx as int][j],
            decreases channels - ch,
        {
            proof {
                use_type_invariant(&self.layout);
                lemma_strlits_differ();
            }
            let coil = coil_at(db, offset + ch);
            let val: u16 = if coil {
                1
            } else {
                0
            };
            assert(val == spec_desired(g, *db, ch as int));
            proof {
                if spec_group_settled(v0.cache, v0.outputs, idx as int, *db) {
                    assert(v0.cache[idx as int][ch as int] == Some(spec_desired(g, *db, ch as int)));
                    assert(self@.cache[idx as int][ch as int] == v0.cache[idx as int][ch as int]);
                }
            }
            if self.layout.cache.should_update(idx, ch, val) {
                let reg = if coil {
                    reg_set
                } else {
                    reg_clr
                };
                let data: u8 = ch as u8 + 1;
                let bytes = [data];
                assert(bytes@ =~= seq![data]);
                match self.i2c_write(reg, &bytes) {
                    Ok(()) => {
                        proof {
                            assert(seq![reg] + seq![data] =~= seq![reg, data]);
                            assert(spec_needs_write(v0.cache[idx as int], g, *db, ch as int));
                            assert(self.log@ =~= log0 + spec_set_clr_events(
                                g,
                                v0.cache[idx as int],
                                *db,
                                ch + 1,
                            ));
                        }
                        self.layout.set_slot(idx, ch, Some(val));
                    },
                    Err(e) => {
                        self.layout.set_slot(idx, ch, None);
                        proof {
                            assert(seq![reg] + seq![data] =~= seq![reg, data]);
                            assert(spec_needs_write(v0.cache[idx as int], g, *db, ch as int));
                            assert(self.log@ =~= log0 + spec_set_clr_events(
                                g,
                                v0.cache[idx as int],
                                *db,
                                ch + 1,
                            ));
                            lemma_strlits_differ();
                            assert(self@.cache[idx as int][ch as int] is None);
                            assert(self@.cache[idx as int].len() == v0.cache[idx as int].len());
                            assert(forall|j: int| 0 <= j < ch ==> #[trigger] self@.cache[idx as int][j] == Some(spec_desired(g, *db, j)));
                            assert(forall|j: int| ch < j < v0.cache[idx as int].len() ==> #[trigger] self@.cache[idx as int][j] == v0.cache[idx as int][j]);
                            assert(spec_channel_failure(
                                log0,
                                self.log@,
                                v0.cache[idx as int],
                                self@.cache[idx as int],
                                g,
                                *db,
                                ch as int,
                            ));
                            assert(spec_group_failed(
                                log0,
                                self.log@,
                                v0.cache[idx as int],
                                self@.cache[idx as int],
                                g,
                                *db,
                            ));
                        }
                        return Err(e);
                    },
                }
            } else {
                proof {
                    assert(!spec_needs_write(v0.cache[idx as int], g, *db, ch as int));
                    assert(self.log@ =~= log0 + spec_set_clr_events(
                        g,
                        v0.cache[idx as int],
                        *db,
                        ch + 1,
                    ));
                }
            }
            ch += 1;
        }
        Ok(())
    }
}

impl<B: I2cBus> GenericBoard<B> {
    fn apply_u16_le(&mut self, idx: usize, db: &DataBank) -> (r: Result<(), BoardError>)
        requires
            idx < old(self)@.outputs.len(),
            old(self)@.outputs[idx as int].op == "write_u16_le"@,
        ensures
            final(self)@ == (BoardView { cache: final(self)@.cache, ..old(self)@ }),
            spec_group_applied(old(self)@.cache, final(self)@.cache, old(self)@.outputs, idx as int, *db, r is Ok),
            spec_group_settled(old(self)@.cache, old(self)@.outputs, idx as int, *db)
                ==> final(self).bus_log() == old(self).bus_log() && r is Ok,
            r is Ok ==> final(self).bus_log() == old(self).bus_log() + spec_u16_events(
                old(self)@.outputs[idx as int],
                old(self)@.cache[idx as int],
                *db,
                old(self)@.outputs[idx as int].channels as int,
            ),            r is Err ==> spec_group_failed(
                old(self).bus_log(),
                final(self).bus_log(),
                old(self)@.cache[idx as int],
                final(self)@.cache[idx as int],
                old(self)@.outputs[idx as int],
                *db,
            ),
    {
        let ghost log0 = self.log@;
        proof {
            use_type_invariant(&self.layout);
        }
        let ghost v0 = self@;
        let ghost g = v0.outputs[idx as int];
        assert(g == self.layout.output_groups@[idx as int]@);
        assert(spec_output_group_ok(g));
        let register = match self.layout.output_groups[idx].register {
            Some(r) => r,
            None => 0,
        };
        let i2c_scale = self.layout.output_groups[idx].i2c_scale;
        let modbus_scale = self.layout.output_groups[idx].modbus_scale;
        let channels = self.layout.output_groups[idx].channels;
        let offset = self.layout.output_groups[idx].modbus_offset;
        let mut ch: usize = 0;
        while ch < channels
            invariant
                v0 == old(self)@,
                self@ == (BoardView { cache: self@.cache, ..v0 }),
                spec_board_wf(self@),
                v0.outputs[idx as int] == g,
                idx < v0.outputs.len(),
                g.op == "write_u16_le"@,
                g.channels == channels,
                g.modbus_offset == offset,
                log0 == old(self).bus_log(),
                spec_group_settled(v0.cache, v0.outputs, idx as int, *db) ==> self.log@ == log0,
                self.log@ == log0 + spec_u16_events(g, v0.cache[idx as int], *db, ch as int),
                register == spec_reg_or_zero(g.register),
                i2c_scale == g.i2c_scale,
                modbus_scale == g.modbus_scale,
                v0.cache.len() == v0.outputs.len(),
                v0.cache[idx as int].len() == channels,
                channels <= 128,
                offset + channels <= usize::MAX,
                ch <= channels,
                spec_group_applied(v0.cache, self@.cache, v0.outputs, idx as int, *db, false),
                forall|j: int| 0 <= j < ch ==> #[trigger] self@.cache[idx as int][j] == Some(
                    spec_desired(g, *db, j),
                ),
                forall|j: int| ch <= j < channels ==> #[trigger] self@.cache[idx as int][j]
                    == v0.cache[idx as int][j],
            decreases channels - ch,
        {
            let reg_val = hr_at(db, offset + ch);
            assert(reg_val == spec_desired(g, *db, ch as int));
            proof {
                if spec_group_settled(v0.cache, v0.outputs, idx as int, *db) {
                    assert(v0.cache[idx as int][ch as int] == Some(spec_desired(g, *db, ch as int)));
                    assert(self@.cache[idx as int][ch as int] == v0.cache[idx as int][ch as int]);
                }
            }
            if self.layout.cache.should_update(idx, ch, reg_val) {
                let raw = scale_value(reg_val, i2c_scale, modbus_scale);
                let reg = channel_reg(register, ch);
                match self.write_u16_le_reg(reg, raw) {
                    Ok(()) => {
                        proof {
                            assert(spec_needs_write(v0.cache[idx as int], g, *db, ch as int));
                            assert(self.log@ =~= log0 + spec_u16_events(
                                g,
                                v0.cache[idx as int],
                                *db,
                                ch + 1,
                            ));
                        }
                        self.layout.set_slot(idx, ch, Some(reg_val));
                    },
                    Err(e) => {
                        self.layout.set_slot(idx, ch, None);
                        proof {
                            assert(spec_needs_write(v0.cache[idx as int], g, *db, ch as int));
                            assert(self.log@ =~= log0 + spec_u16_events(
                                g,
                                v0.cache[idx as int],
                                *db,
                                ch + 1,
                            ));
                            lemma_strlits_differ();
                            assert(self@.cache[idx as int][ch as int] is None);
                            assert(self@.cache[idx as int].len() == v0.cache[idx as int].len());
                            assert(forall|j: int| 0 <= j < ch ==> #[trigger] self@.cache[idx as int][j] == Some(spec_desired(g, *db, j)));
                            assert(forall|j: int| ch < j < v0.cache[idx as int].len() ==> #[trigger] self@.cache[idx as int][j] == v0.cache[idx as int][j]);
                            assert(spec_channel_failure(
                                log0,
                                self.log@,
                                v0.cache[idx as int],
                                self@.cache[idx as int],
                                g,
                                *db,
                                ch as int,
                            ));
                            assert(spec_group_failed(
                                log0,
                                self.log@,
                                v0.cache[idx as int],
                                self@.cache[idx as int],
                                g,
                                *db,
                            ));
                        }
                        return Err(e);
                    },
                }
            } else {
                proof {
                    assert(!spec_needs_write(v0.cache[idx as int], g, *db, ch as int));
                    assert(self.log@ =~= log0 + spec_u16_events(
                        g,
                        v0.cache[idx as int],
                        *db,
                        ch + 1,
                    ));
                }
            }
            ch += 1;
        }
        Ok(())
    }

    fn any_change(&self, idx: usize, db: &DataBank) -> (b: bool)
        requires
            idx < self@.outputs.len(),
        ensures
            !b ==> forall|j: int|
                0 <= j < self@.outputs[idx as int].channels ==> !#[trigger] crate::cache::spec_should_update(
                    self@.cache,
                    idx as int,
                    j,
                    spec_desired(self@.outputs[idx as int], *db, j),
                ),
            b ==> exists|j: int|
                0 <= j < self@.outputs[idx as int].channels && #[trigger] crate::cache::spec_should_update(
                    self@.cache,
                    idx as int,
                    j,
                    spec_desired(self@.outputs[idx as int], *db, j),
                ),
    {
        proof {
            use_type_invariant(&self.layout);
            lemma_strlits_differ();
        }
        let ghost g = self@.outputs[idx as int];
        assert(g == self.layout.output_groups@[idx as int]@);
        assert(spec_output_group_ok(g));
        let channels = self.layout.output_groups[idx].channels;
        let offset = self.layout.output_groups[idx].modbus_offset;
        let is_le = str_is(&self.layout.output_groups[idx].op, "write_u16_le");
        let mut ch: usize = 0;
        while ch < channels
            invariant
                g == self@.outputs[idx as int],
                g.channels == channels,
                g.modbus_offset == offset,
                is_le == (g.op == "write_u16_le"@),
                offset + channels <= usize::MAX,
                ch <= channels,
                forall|j: int|
                    0 <= j < ch ==> !#[trigger] crate::cache::spec_should_update(
                        self@.cache,
                        idx as int,
                        j,
                        spec_desired(g, *db, j),
                    ),
            decreases channels - ch,
        {
            let val: u16 = if is_le {
                hr_at(db, offset + ch)
            } else if coil_at(db, offset + ch) {
                1
            } else {
                0
            };
            assert(val == spec_desired(g, *db, ch as int));
            if self.layout.cache.should_update(idx, ch, val) {
                assert(crate::cache::spec_should_update(
                    self@.cache,
                    idx as int,
                    ch as int,
                    spec_desired(self@.outputs[idx as int], *db, ch as int),
                ));
                return true;
            }
            ch += 1;
        }
        false
    }

    fn apply_rmw(&mut self, idx: usize, db: &DataBank) -> (r: Result<(), BoardError>)
        requires
            idx < old(self)@.outputs.len(),
            old(self)@.outputs[idx as int].op == "pca9535_rmw_bit"@,
        ensures
            final(self)@ == (BoardView { cache: final(self)@.cache, ..old(self)@ }),
            spec_group_applied(old(self)@.cache, final(self)@.cache, old(self)@.outputs, idx as int, *db, r is Ok),
            spec_group_settled(old(self)@.cache, old(self)@.outputs, idx as int, *db)
                ==> final(self).bus_log() == old(self).bus_log() && r is Ok,
            r is Ok ==> spec_rmw_applied(
                old(self).bus_log(),
                final(self).bus_log(),
                old(self)@.outputs[idx as int],
                old(self)@.cache[idx as int],
                *db,
            ),
            r is Err ==> spec_group_failed(
                old(self).bus_log(),
                final(self).bus_log(),
                old(self)@.cache[idx as int],
                final(self)@.cache[idx as int],
                old(self)@.outputs[idx as int],
                *db,
            ),
    {
        let ghost log0 = self.log@;
        proof {
            use_type_invariant(&self.layout);
            lemma_strlits_differ();
        }
        let ghost v0 = self@;
        let ghost g = v0.outputs[idx as int];
        assert(g == self.layout.output_groups@[idx as int]@);
        assert(spec_output_group_ok(g));
        let register = match self.layout.output_groups[idx].register {
            Some(r) => r,
            None => 0,
        };
        let remap = crate::board_def::copy_opt_bytes(&self.layout.output_groups[idx].bit_remap);
        let channels = self.layout.output_groups[idx].channels;
        let offset = self.layout.output_groups[idx].modbus_offset;
        if !self.any_change(idx, db) {
            proof {
                assert(self@.cache.len() == self@.outputs.len());
                assert(self@.cache[idx as int].len() == g.channels);
                assert forall|ch: int| 0 <= ch < g.channels implies !#[trigger] spec_needs_write(
                    v0.cache[idx as int],
                    g,
                    *db,
                    ch,
                ) by {
                    assert(!crate::cache::spec_should_update(
                        self@.cache,
                        idx as int,
                        ch,
                        spec_desired(g, *db, ch),
                    ));
                }
                assert(!spec_any_needs_write(g, v0.cache[idx as int], *db));
            }
            proof {
                assert forall|ch: int| 0 <= ch < g.channels implies #[trigger] self@.cache[idx as int][ch]
                    == Some(spec_desired(g, *db, ch)) by {
                    assert(!crate::cache::spec_should_update(
                        self@.cache,
                        idx as int,
                        ch,
                        spec_desired(g, *db, ch),
                    ));
                }
            }
            return Ok(());
        }
        proof {
            if spec_group_settled(v0.cache, v0.outputs, idx as int, *db) {
                let j = choose|j: int|
                    0 <= j < g.channels && #[trigger] crate::cache::spec_should_update(
                        self@.cache,
                        idx as int,
                        j,
                        spec_desired(g, *db, j),
                    );
                assert(v0.cache[idx as int][j] == Some(spec_desired(g, *db, j)));
                assert(false);
            }
            let j = choose|j: int|
                0 <= j < g.channels && #[trigger] crate::cache::spec_should_update(
                    self@.cache,
                    idx as int,
                    j,
                    spec_desired(g, *db, j),
                );
            assert(spec_needs_write(v0.cache[idx as int], g, *db, j));
            assert(spec_any_needs_write(g, v0.cache[idx as int], *db));
        }
        let mut io_val = match self.read_u16_le_reg(register) {
            Ok(v) => v,
            Err(e) => {
                assert(register == spec_reg_or_zero(g.register));
                assert(spec_group_failed(log0, self.log@, v0.cache[idx as int], self@.cache[idx as int], g, *db));
                return Err(e);
            },
        };
        let ghost raw = io_val;
        let mut ch: usize = 0;
        while ch < channels
            invariant
                self@ == v0,
                v0.outputs[idx as int] == g,
                g.op == "pca9535_rmw_bit"@,
                g.channels == channels,
                g.modbus_offset == offset,
                crate::board_def::opt_bytes(remap) == g.bit_remap,
                forall|c: int| 0 <= c < g.channels ==> #[trigger] spec_bit_of(g.bit_remap, c) < 16,
                offset + channels <= usize::MAX,
                ch <= channels,
                io_val == spec_rmw_value(raw, g, v0.cache[idx as int], *db, ch as int),
                v0.cache.len() == v0.outputs.len(),
                v0.cache[idx as int].len() == channels,
                idx < v0.outputs.len(),
            decreases channels - ch,
        {
            let coil = coil_at(db, offset + ch);
            let val: u16 = if coil {
                1
            } else {
                0
            };
            proof {
                lemma_strlits_differ();
            }
            assert(val == spec_desired(g, *db, ch as int));
            if self.layout.cache.should_update(idx, ch, val) {
                let bit = remap_bit(&remap, ch);
                assert(spec_bit_of(g.bit_remap, ch as int) < 16);
                io_val = set_port_bit(io_val, bit, coil);
                assert(spec_needs_write(v0.cache[idx as int], g, *db, ch as int));
                assert(io_val == spec_rmw_value(raw, g, v0.cache[idx as int], *db, ch + 1));
            } else {
                assert(!spec_needs_write(v0.cache[idx as int], g, *db, ch as int));
                assert(io_val == spec_rmw_value(raw, g, v0.cache[idx as int], *db, ch + 1));
            }
            ch += 1;
        }
        match self.write_u16_le_reg(register, io_val) {
            Ok(()) => {
                proof {
                    assert(self.log@ =~= log0 + spec_rmw_events(raw, g, v0.cache[idx as int], *db));
                }
                let ghost log_done = self.log@;
                let mut c: usize = 0;
                while c < channels
                    invariant
                        self.log@ == log_done,
                        v0 == old(self)@,
                        self@ == (BoardView { cache: self@.cache, ..v0 }),
                        spec_board_wf(self@),
                        v0.outputs[idx as int] == g,
                        idx < v0.outputs.len(),
                        g.op == "pca9535_rmw_bit"@,
                        g.channels == channels,
                        g.modbus_offset == offset,
                        offset + channels <= usize::MAX,
                        c <= channels,
                        spec_group_applied(v0.cache, self@.cache, v0.outputs, idx as int, *db, false),
                        forall|j: int| 0 <= j < c ==> #[trigger] self@.cache[idx as int][j] == Some(
                            spec_desired(g, *db, j),
                        ),
                        forall|j: int| c <= j < channels ==> #[trigger] self@.cache[idx as int][j]
                            == v0.cache[idx as int][j],
                    decreases channels - c,
                {
                    proof {
                        lemma_strlits_differ();
                    }
                    let coil = coil_at(db, offset + c);
                    let val: u16 = if coil {
                        1
                    } else {
                        0
                    };
                    assert(val == spec_desired(g, *db, c as int));
                    self.layout.set_slot(idx, c, Some(val));
                    c += 1;
                }
                Ok(())
            },
            Err(e) => {
                proof {
                    assert(self.log@ =~= log0 + spec_rmw_events(raw, g, v0.cache[idx as int], *db));
                }
                let ghost log_failed = self.log@;
                let mut c: usize = 0;
                while c < channels
                    invariant
                        self.log@ == log_failed,
                        log_failed == log0 + spec_rmw_events(raw, g, v0.cache[idx as int], *db),
                        log0 == old(self).bus_log(),
                        v0.cache.len() == v0.outputs.len(),
                        v0.cache[idx as int].len() == channels,
                        v0 == old(self)@,
                        self@ == (BoardView { cache: self@.cache, ..v0 }),
                        spec_board_wf(self@),
                        v0.outputs[idx as int] == g,
                        idx < v0.outputs.len(),
                        g.channels == channels,
                        c <= channels,
                        spec_group_applied(v0.cache, self@.cache, v0.outputs, idx as int, *db, false),
                        forall|j: int| 0 <= j < c ==> #[trigger] self@.cache[idx as int][j] == None::<u16>,
                        forall|j: int| c <= j < channels ==> #[trigger] self@.cache[idx as int][j]
                            == v0.cache[idx as int][j],
                    decreases channels - c,
                {
                    self.layout.set_slot(idx, c, None);
                    c += 1;
                }
                proof {
                    assert(self@.cache[idx as int].len() == v0.cache[idx as int].len());
                    assert(spec_group_failed(log0, self.log@, v0.cache[idx as int], self@.cache[idx as int], g, *db));
                }
                Err(e)
            },
        }
    }
}

/// A pass over `outs` that failed at group `k`: the groups before it
/// passed (bus log `log0` to `mid`; each known group's slots confirmed,
/// groups with an unknown op untouched), group `k` failed (log `mid` to
/// `log1`), and the groups after it were not touched.
pub open spec fn spec_outputs_failed_at(
    log0: Seq<BusEvent>,
    log1: Seq<BusEvent>,
    mid: Seq<BusEvent>,
    outs: Seq<IoGroupView>,
    c0: Seq<Seq<Option<u16>>>,
    c1: Seq<Seq<Option<u16>>>,
    db: DataBank,
    k: int,
) -> bool {
    &&& 0 <= k < outs.len()
    &&& spec_outputs_log(log0, mid, outs, c0, db, k)
    &&& spec_group_failed(mid, log1, c0[k], c1[k], outs[k], db)
    &&& forall|g: int|
        0 <= g < k && spec_known_output_op(outs[g].op) ==> #[trigger] spec_group_settled(c1, outs, g, db)
    &&& forall|g: int| 0 <= g < k && !spec_known_output_op(outs[g].op) ==> #[trigger] c1[g] == c0[g]
    &&& forall|g: int| k < g < outs.len() ==> #[trigger] c1[g] == c0[g]
}

/// A pass over `outs` that failed at some group.
pub open spec fn spec_outputs_failed(
    log0: Seq<BusEvent>,
    log1: Seq<BusEvent>,
    outs: Seq<IoGroupView>,
    c0: Seq<Seq<Option<u16>>>,
    c1: Seq<Seq<Option<u16>>>,
    db: DataBank,
) -> bool {
    exists|k: int, mid: Seq<BusEvent>| #[trigger] spec_outputs_failed_at(log0, log1, mid, outs, c0, c1, db, k)
}

/// The cache `c1` after an output pass over `outs` from `c0`: every slot
/// stepped, groups with an unknown op untouched, and every slot of a known
/// group confirmed with its desired value when `done`.
pub open spec fn spec_outputs_applied(
    c0: Seq<Seq<Option<u16>>>,
    c1: Seq<Seq<Option<u16>>>,
    outs: Seq<IoGroupView>,
    db: DataBank,
    done: bool,
) -> bool {
    &&& c1.len() == c0.len()
    &&& forall|g: int, ch: int|
        0 <= g < outs.len() && 0 <= ch < outs[g].channels ==> spec_slot_step(
            c0[g][ch],
            #[trigger] c1[g][ch],
            spec_desired(outs[g], db, ch),
        )
    &&& forall|g: int| 0 <= g < outs.len() && !spec_known_output_op(outs[g].op) ==> #[trigger] c1[g] == c0[g]
    &&& done ==> forall|g: int, ch: int|
        0 <= g < outs.len() && spec_known_output_op(outs[g].op) && 0 <= ch < outs[g].channels
            ==> #[trigger] c1[g][ch] == Some(spec_desired(outs[g], db, ch))
}

/// Whether `logical` is the raw port value `raw` in logical relay order.
pub open spec fn spec_is_unremapped(logical: u16, raw: u16, remap: Seq<u8>) -> bool {
    forall|b: int| 0 <= b < 16 ==> #[trigger] word_bit(logical, b) == spec_unremap_bit(raw, remap, b)
}

/// Whether `logical` is some raw port value in logical relay order.
pub open spec fn spec_read_back_value(logical: u16, remap: Seq<u8>) -> bool {
    exists|raw: u16| #[trigger] spec_is_unremapped(logical, raw, remap)
}

/// The register of a group, 0 when it names none.
pub open spec fn spec_register_or_zero(g: IoGroupView) -> u8 {
    match g.register {
        Some(r) => r,
        None => 0,
    }
}

/// `log1` is `log0` followed by a read of the port register `reg` whose
/// value, in logical relay order through `remap`, is `v`.
pub open spec fn spec_relay_read_back(
    log0: Seq<BusEvent>,
    log1: Seq<BusEvent>,
    reg: u8,
    v: u16,
    remap: Seq<u8>,
) -> bool {
    exists|raw: u16|
        log1 == log0 + spec_select_read(reg, spec_le_bytes(raw)) && #[trigger] spec_is_unremapped(
            v,
            raw,
            remap,
        )
}

/// The relay remap table of the read-back group of a board.
pub open spec fn spec_relay_remap(v: BoardView) -> Seq<u8> {
    match v.relay_idx {
        Some(i) => spec_remap_of(v.outputs[i]),
        None => Seq::empty(),
    }
}

impl<B: I2cBus> GenericBoard<B> {
    fn apply_all(&mut self, db: &DataBank) -> (r: Result<(), BoardError>)
        ensures
            final(self)@ == (BoardView { cache: final(self)@.cache, ..old(self)@ }),
            spec_outputs_applied(old(self)@.cache, final(self)@.cache, old(self)@.outputs, *db, r is Ok),
            spec_outputs_settled(old(self)@.cache, old(self)@.outputs, *db) ==> final(self).bus_log()
                == old(self).bus_log() && r is Ok,
            r is Ok ==> spec_outputs_log(
                old(self).bus_log(),
                final(self).bus_log(),
                old(self)@.outputs,
                old(self)@.cache,
                *db,
                old(self)@.outputs.len() as int,
            ),
            r is Err ==> spec_outputs_failed(
                old(self).bus_log(),
                final(self).bus_log(),
                old(self)@.outputs,
                old(self)@.cache,
                final(self)@.cache,
                *db,
            ),
    {
        proof {
            use_type_invariant(&self.layout);
        }
        let ghost log0 = self.log@;
        let ghost v0 = self@;
        let ghost outs = v0.outputs;
        let ghost mut logs: Seq<Seq<BusEvent>> = seq![log0];
        let n = self.layout.output_groups.len();
        let mut idx: usize = 0;
        while idx < n
            invariant
                v0 == old(self)@,
                outs == v0.outputs,
                n == outs.len(),
                v0.cache.len() == n,
                self@ == (BoardView { cache: self@.cache, ..v0 }),
                idx <= n,
                self@.cache.len() == n,
                forall|g: int| idx <= g < n ==> #[trigger] self@.cache[g] == v0.cache[g],
                forall|g: int|
                    0 <= g < idx && !spec_known_output_op(outs[g].op) ==> #[trigger] self@.cache[g]
                        == v0.cache[g],
                forall|g: int, ch: int|
                    0 <= g < idx && spec_known_output_op(outs[g].op) && 0 <= ch < outs[g].channels
                        ==> #[trigger] self@.cache[g][ch] == Some(spec_desired(outs[g], *db, ch)),
                spec_outputs_settled(v0.cache, outs, *db) ==> self.log@ == log0,
                spec_log_chain(logs, log0, self.log@, outs, v0.cache, *db, idx as int),
                log0 == old(self).bus_log(),
            decreases n - idx,
        {
            proof {
                use_type_invariant(&self.layout);
            }
            let is_sc = str_is(&self.layout.output_groups[idx].op, "write_set_clr");
            let is_le = str_is(&self.layout.output_groups[idx].op, "write_u16_le");
            let is_rmw = str_is(&self.layout.output_groups[idx].op, "pca9535_rmw_bit");
            assert(outs[idx as int] == self.layout.output_groups@[idx as int]@);
            let ghost c_before = self@.cache;
            let ghost log_before = self.log@;
            proof {
                lemma_strlits_differ();
                if spec_outputs_settled(v0.cache, outs, *db) && spec_known_output_op(outs[idx as int].op) {
                    assert forall|ch: int| 0 <= ch < outs[idx as int].channels implies #[trigger] c_before[idx as int][ch]
                        == Some(spec_desired(outs[idx as int], *db, ch)) by {
                        assert(c_before[idx as int] == v0.cache[idx as int]);
                        assert(v0.cache[idx as int][ch] == Some(spec_desired(outs[idx as int], *db, ch)));
                    }
                    assert(spec_group_settled(c_before, outs, idx as int, *db));
                }
            }
            let r = if is_sc {
                self.apply_set_clr(idx, db)
            } else if is_le {
                self.apply_u16_le(idx, db)
            } else if is_rmw {
                self.apply_rmw(idx, db)
            } else {
                Ok(())
            };
            let ghost c_after = self@.cache;
            proof {
                assert(c_before[idx as int] == v0.cache[idx as int]);
                if r is Ok {
                    assert(spec_group_log(log_before, self.log@, outs[idx as int], v0.cache[idx as int], *db));
                    let logs1 = logs.push(self.log@);
                    assert forall|g: int| 0 <= g < idx + 1 implies #[trigger] spec_group_log(
                        logs1[g],
                        logs1[g + 1],
                        outs[g],
                        v0.cache[g],
                        *db,
                    ) by {
                        if g < idx {
                            assert(spec_group_log(logs[g], logs[g + 1], outs[g], v0.cache[g], *db));
                        }
                    }
                    assert(spec_log_chain(logs1, log0, self.log@, outs, v0.cache, *db, idx + 1));
                    logs = logs1;
                }
                if is_sc || is_le || is_rmw {
                    assert(spec_group_applied(c_before, c_after, outs, idx as int, *db, r is Ok));
                } else {
                    assert(c_after == c_before);
                }
            }
            match r {
                Ok(()) => {},
                Err(e) => {
                    proof {
                        assert forall|g: int, ch: int|
                            0 <= g < outs.len() && 0 <= ch < outs[g].channels implies spec_slot_step(
                            v0.cache[g][ch],
                            #[trigger] c_after[g][ch],
                            spec_desired(outs[g], *db, ch),
                        ) by {
                            if g != idx {
                                assert(c_after[g] == c_before[g]);
                            }
                        }
                        assert forall|g: int|
                            0 <= g < outs.len() && !spec_known_output_op(outs[g].op) implies #[trigger] c_after[g]
                            == v0.cache[g] by {
                            if g != idx {
                                assert(c_after[g] == c_before[g]);
                            }
                        }
                        assert(spec_outputs_log(log0, log_before, outs, v0.cache, *db, idx as int));
                        assert forall|g: int|
                            0 <= g < idx && spec_known_output_op(outs[g].op) implies #[trigger] spec_group_settled(
                            c_after,
                            outs,
                            g,
                            *db,
                        ) by {
                            assert(c_after[g] == c_before[g]);
                        }
                        assert forall|g: int|
                            0 <= g < idx && !spec_known_output_op(outs[g].op) implies #[trigger] c_after[g]
                            == v0.cache[g] by {
                            assert(c_after[g] == c_before[g]);
                        }
                        assert forall|g: int| idx < g < outs.len() implies #[trigger] c_after[g]
                            == v0.cache[g] by {
                            assert(c_after[g] == c_before[g]);
                        }
                        assert(spec_outputs_failed_at(
                            log0,
                            self.log@,
                            log_before,
                            outs,
                            v0.cache,
                            c_after,
                            *db,
                            idx as int,
                        ));
                    }
                    return Err(e);
                },
            }
            proof {
                assert forall|g: int| idx + 1 <= g < n implies #[trigger] c_after[g] == v0.cache[g] by {
                    assert(c_after[g] == c_before[g]);
                }
                assert forall|g: int|
                    0 <= g < idx + 1 && !spec_known_output_op(outs[g].op) implies #[trigger] c_after[g]
                    == v0.cache[g] by {
                    if g != idx {
                        assert(c_after[g] == c_before[g]);
                    }
                }
                assert forall|g: int, ch: int|
                    0 <= g < idx + 1 && spec_known_output_op(outs[g].op) && 0 <= ch < outs[g].channels
                        implies #[trigger] c_after[g][ch] == Some(spec_desired(outs[g], *db, ch)) by {
                    if g != idx {
                        assert(c_after[g] == c_before[g]);
                    }
                }
            }
            idx += 1;
        }
        proof {
            assert forall|g: int, ch: int|
                0 <= g < outs.len() && 0 <= ch < outs[g].channels implies spec_slot_step(
                v0.cache[g][ch],
                #[trigger] self@.cache[g][ch],
                spec_desired(outs[g], *db, ch),
            ) by {
                if !spec_known_output_op(outs[g].op) {
                    assert(self@.cache[g] == v0.cache[g]);
                }
            }
        }
        Ok(())
    }

    fn read_relay(&mut self) -> (r: Result<u16, BoardError>)
        ensures
            final(self)@ == old(self)@,
            old(self)@.relay_idx is None ==> (r matches Ok(v) && v == 0),
            r matches Ok(v) ==> spec_read_back_value(v, spec_relay_remap(old(self)@)),
            old(self)@.relay_idx is None ==> final(self).bus_log() == old(self).bus_log(),
            r matches Ok(v) ==> (old(self)@.relay_idx matches Some(i) ==> spec_relay_read_back(
                old(self).bus_log(),
                final(self).bus_log(),
                spec_register_or_zero(old(self)@.outputs[i]),
                v,
                spec_relay_remap(old(self)@),
            )),
    {
        proof {
            use_type_invariant(&self.layout);
        }
        match self.layout.relay_output_idx {
            Some(idx) => {
                proof {
                    lemma_first_relay_found(self@.outputs);
                }
                let ghost g = self@.outputs[idx as int];
                assert(g == self.layout.output_groups@[idx as int]@);
                let register = match self.layout.output_groups[idx].register {
                    Some(r) => r,
                    None => 0,
                };
                let remap = match &self.layout.output_groups[idx].bit_remap {
                    Some(r) => crate::board_def::copy_bytes(r),
                    None => Vec::new(),
                };
                assert(remap@ == spec_remap_of(g));
                let raw = match self.read_u16_le_reg(register) {
                    Ok(v) => v,
                    Err(e) => {
                        return Err(e);
                    },
                };
                let logical = unremap_bits(raw, remap.as_slice());
                assert(spec_is_unremapped(logical, raw, spec_relay_remap(self@)));
                assert(register == spec_register_or_zero(old(self)@.outputs[idx as int]));
                assert(spec_is_unremapped(logical, raw, spec_relay_remap(old(self)@)));
                assert(self@ == old(self)@);
                assert(spec_is_unremapped(logical, raw, spec_relay_remap(old(self)@)));
                assert(spec_read_back_value(logical, spec_relay_remap(old(self)@)));
                Ok(logical)
            },
            None => {
                proof {
                    assert forall|b: int| 0 <= b < 16 implies #[trigger] word_bit(0u16, b)
                        == spec_unremap_bit(0u16, spec_relay_remap(self@), b) by {
                        crate::cache::lemma_zero_bit16(b as u16);
                    }
                    assert(spec_is_unremapped(0u16, 0u16, spec_relay_remap(self@)));
                    assert(spec_is_unremapped(0u16, 0u16, spec_relay_remap(old(self)@)));
                    assert(spec_read_back_value(0u16, spec_relay_remap(old(self)@)));
                }
                Ok(0)
            },
        }
    }

    fn expected_bitmask(&self) -> (mask: u16)
        ensures
            self@.relay_idx is None ==> mask == 0,
            self@.relay_idx matches Some(i) ==> forall|b: int|
                0 <= b < 16 ==> #[trigger] word_bit(mask, b) == spec_bitmask_bit(
                    self@.cache,
                    i,
                    self@.relay_count as int,
                    b,
                ),
    {
        proof {
            use_type_invariant(&self.layout);
        }
        match self.layout.relay_output_idx {
            Some(idx) => {
                let ghost g = self@.outputs[idx as int];
                proof {
                    lemma_first_relay_found(self@.outputs);
                    assert(spec_output_group_ok(g));
                    if g.channels > 16 {
                        assert(spec_bit_of(g.bit_remap, 16) < 16);
                    }
                }
                self.layout.cache.bitmask(idx, self.layout.relay_count)
            },
            None => 0,
        }
    }
}

impl<B: I2cBus> SequentBoard for GenericBoard<B> {
    fn name(&self) -> (n: &str)
        ensures
            n@ == self@.name,
    {
        self.layout.name.as_str()
    }

    fn stack_id(&self) -> (s: u8)
        ensures
            s == self@.stack_id,
    {
        self.layout.stack_id
    }

    open spec fn name_text(&self) -> Seq<char> {
        self@.name
    }

    open spec fn stack_level(&self) -> u8 {
        self@.stack_id
    }

    open spec fn capability_list(&self) -> Seq<BoardCapability> {
        self@.capabilities
    }

    fn capabilities(&self) -> (caps: &[BoardCapability])
        ensures
            caps@ == self@.capabilities,
    {
        self.layout.capabilities.as_slice()
    }

    fn relay_count(&self) -> (n: usize)
        ensures
            n == self@.relay_count,
    {
        self.layout.relay_count
    }

    /// Read every input group into the data bank, in order.  A failed
    /// bitmask read ends the poll with its error; a failed channel of a
    /// `read_u16_le` group is skipped.  Slots no input group writes keep
    /// their values; on success the bank holds what each group read, as
    /// the bus log shows it.
    fn poll_inputs(&mut self, db: &mut DataBank) -> (r: Result<(), BoardError>)
        ensures
            final(self)@ == old(self)@,
            spec_untargeted_kept(old(self)@.inputs, old(self)@.inputs.len() as int, *old(db), *final(db)),
            r is Ok ==> spec_inputs_read(
                old(self).bus_log(),
                final(self).bus_log(),
                *old(db),
                *final(db),
                old(self)@.inputs,
            ),
            r is Err ==> exists|g: int|
                0 <= g < old(self)@.inputs.len() && spec_op_width(#[trigger] old(self)@.inputs[g].op) > 0,
            r is Err ==> spec_inputs_failed(
                old(self).bus_log(),
                final(self).bus_log(),
                *old(db),
                *final(db),
                old(self)@.inputs,
            ),
    {
        self.poll_all(db)
    }

    /// Write every output group whose cached state differs from the data
    /// bank.  A successful pass leaves every channel of a known group
    /// confirmed with its desired value; a failed write forgets the
    /// channels it covered and ends the pass with its error.  When every
    /// channel already holds its desired value, the bus is not touched.
    fn apply_outputs(&mut self, db: &DataBank) -> (r: Result<(), BoardError>)
        ensures
            final(self)@ == (BoardView { cache: final(self)@.cache, ..old(self)@ }),
            spec_outputs_applied(old(self)@.cache, final(self)@.cache, old(self)@.outputs, *db, r is Ok),
            spec_outputs_settled(old(self)@.cache, old(self)@.outputs, *db) ==> final(self).bus_log()
                == old(self).bus_log() && r is Ok,
            r is Ok ==> spec_outputs_log(
                old(self).bus_log(),
                final(self).bus_log(),
                old(self)@.outputs,
                old(self)@.cache,
                *db,
                old(self)@.outputs.len() as int,
            ),
            r is Err ==> spec_outputs_failed(
                old(self).bus_log(),
                final(self).bus_log(),
                old(self)@.outputs,
                old(self)@.cache,
                final(self)@.cache,
                *db,
            ),
    {
        self.apply_all(db)
    }

    /// Relay state read back from the output port, in logical order
    /// through the remap table; 0 for a board without a relay group.
    fn read_relay_state(&mut self) -> (r: Result<u16, BoardError>)
        ensures
            final(self)@ == old(self)@,
            old(self)@.relay_idx is None ==> (r matches Ok(v) && v == 0),
            r matches Ok(v) ==> spec_read_back_value(v, spec_relay_remap(old(self)@)),
            old(self)@.relay_idx is None ==> final(self).bus_log() == old(self).bus_log(),
            r matches Ok(v) ==> (old(self)@.relay_idx matches Some(i) ==> spec_relay_read_back(
                old(self).bus_log(),
                final(self).bus_log(),
                spec_register_or_zero(old(self)@.outputs[i]),
                v,
                spec_relay_remap(old(self)@),
            )),
    {
        self.read_relay()
    }

    /// The confirmed `1`s of the relay group's cache (bit `i` = relay `i + 1`).
    fn expected_relay_bitmask(&self) -> (mask: u16)
        ensures
            self@.relay_idx is None ==> mask == 0,
            self@.relay_idx matches Some(i) ==> forall|b: int|
                0 <= b < 16 ==> #[trigger] word_bit(mask, b) == spec_bitmask_bit(
                    self@.cache,
                    i,
                    self@.relay_count as int,
                    b,
                ),
    {
        self.expected_bitmask()
    }

    /// Whether relay `index` has a confirmed cached state.
    fn has_confirmed_relay(&self, index: usize) -> (b: bool)
        ensures
            b == match self@.relay_idx {
                Some(i) => spec_has_confirmed(self@.cache, i, index as int),
                None => false,
            },
    {
        match self.layout.relay_output_idx {
            Some(idx) => self.layout.cache.has_confirmed(idx, index),
            None => false,
        }
    }

    /// Forget the cached state of relay `index`.
    fn invalidate_relay(&mut self, index: usize)
        ensures
            final(self)@ == (BoardView {
                cache: match old(self)@.relay_idx {
                    Some(i) => spec_set_slot(old(self)@.cache, i, index as int, None),
                    None => old(self)@.cache,
                },
                ..old(self)@
            }),
    {
        match self.layout.relay_output_idx {
            Some(idx) => self.layout.set_slot(idx, index, None),
            None => {},
        }
    }
}

// ── Laws ─────────────────────────────────────────────────────────────

/// Write-on-change: after a successful output pass every channel of a
/// known group holds its desired value, so a second pass over the same
/// data bank (by the contract of `apply_outputs`) succeeds without
/// touching the bus.
pub proof fn lemma_applied_outputs_are_settled(
    c0: Seq<Seq<Option<u16>>>,
    c1: Seq<Seq<Option<u16>>>,
    outs: Seq<IoGroupView>,
    db: DataBank,
)
    requires
        spec_outputs_applied(c0, c1, outs, db, true),
    ensures
        spec_outputs_settled(c1, outs, db),
{
}

/// A failed write is retried: the slot of the channel whose write failed
/// is forgotten, so the next output pass writes that channel again,
/// whatever the data bank then holds.
pub proof fn lemma_failed_write_is_retried(
    log0: Seq<BusEvent>,
    log1: Seq<BusEvent>,
    row0: Seq<Option<u16>>,
    row1: Seq<Option<u16>>,
    g: IoGroupView,
    db: DataBank,
    ch: int,
    next_db: DataBank,
)
    requires
        spec_channel_failure(log0, log1, row0, row1, g, db, ch),
    ensures
        spec_needs_write(row1, g, next_db, ch),
{
}

/// After a successful output pass, the expected relay bitmask of the
/// relay group has bit `b` set exactly when relay coil `b` is on (for the
/// relays the group drives and the board counts).
pub proof fn lemma_expected_bitmask_follows_coils(
    c0: Seq<Seq<Option<u16>>>,
    c1: Seq<Seq<Option<u16>>>,
    outs: Seq<IoGroupView>,
    db: DataBank,
    i: int,
    relay_count: int,
    b: int,
)
    requires
        spec_outputs_applied(c0, c1, outs, db, true),
        0 <= i < outs.len(),
        spec_is_relay_group(outs[i]),
        c1.len() == outs.len(),
        c1[i].len() == outs[i].channels,
        0 <= b < relay_count,
        b < outs[i].channels,
    ensures
        spec_bitmask_bit(c1, i, relay_count, b) == spec_coil_at(db, outs[i].modbus_offset + b),
{
    lemma_strlits_differ();
    assert(c1[i][b] == Some(spec_desired(outs[i], db, b)));
}

} // verus!
