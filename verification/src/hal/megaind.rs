//! Driver for the Sequent Microsystems Mega-Industrial HAT.
//!
//! Register addresses come from the board definition, with the firmware's
//! defaults where the definition leaves one out.  A read selects the
//! register with a one-byte write and then reads the data; a write sends
//! the register and its data in one transaction.
//!
//! Analog channels are returned as the raw counts of the board; dividing
//! a count by [`MegaIndBoard::voltage_scale`] gives milliamps or volts.
use vstd::prelude::*;
use vstd::string::StringExecFns;

use crate::board_def::{BoardDef, RegisterMap};
use crate::hal::driver::{
    channel_reg, le16, logged_read, logged_write, spec_channel_reg, spec_le_bytes,
    spec_select_read, spec_select_read_failed, with_context, BusEvent, I2cBus,
};
use crate::hal::traits::BoardError;
use crate::text::{push_decimal, push_hex2, spec_decimal};

verus! {

/// Register addresses of a MegaInd board, and the raw counts per unit of
/// its analog readings.
#[derive(Debug, Clone, Copy, PartialEq, Eq, Structural)]
pub struct MegaIndRegs {
    pub relay_set: u8,
    pub relay_clr: u8,
    pub opto_in: u8,
    pub i4_20_in: u8,
    pub u0_10_in: u8,
    pub diag_24v: u8,
    pub revision_major: u8,
    pub voltage_scale: u32,
}

/// `o`, or `d` when it is unset.
pub open spec fn spec_or_u8(o: Option<u8>, d: u8) -> u8 {
    match o {
        Some(v) => v,
        None => d,
    }
}

/// The registers named in `r`, with the firmware defaults for the others.
pub open spec fn spec_megaind_regs(r: RegisterMap) -> MegaIndRegs {
    MegaIndRegs {
        relay_set: spec_or_u8(r.relay_set, 0x01),
        relay_clr: spec_or_u8(r.relay_clr, 0x02),
        opto_in: spec_or_u8(r.opto_in, 0x03),
        i4_20_in: spec_or_u8(r.i4_20_in, 0x2C),
        u0_10_in: spec_or_u8(r.u0_10_in, 0x1C),
        diag_24v: spec_or_u8(r.diag_24v, 0x73),
        revision_major: spec_or_u8(r.revision_major, 0x78),
        voltage_scale: match r.voltage_scale {
            Some(v) => v,
            None => 1000,
        },
    }
}

fn or_u8(o: Option<u8>, d: u8) -> (v: u8)
    ensures
        v == spec_or_u8(o, d),
{
    match o {
        Some(v) => v,
        None => d,
    }
}

fn regs_from_def(def: &BoardDef) -> (regs: MegaIndRegs)
    ensures
        regs == spec_megaind_regs(def.registers),
{
    let r = &def.registers;
    MegaIndRegs {
        relay_set: or_u8(r.relay_set, 0x01),
        relay_clr: or_u8(r.relay_clr, 0x02),
        opto_in: or_u8(r.opto_in, 0x03),
        i4_20_in: or_u8(r.i4_20_in, 0x2C),
        u0_10_in: or_u8(r.u0_10_in, 0x1C),
        diag_24v: or_u8(r.diag_24v, 0x73),
        revision_major: or_u8(r.revision_major, 0x78),
        voltage_scale: match r.voltage_scale {
            Some(v) => v,
            None => 1000,
        },
    }
}

/// Abstract state of a [`MegaIndBoard`].
pub struct MegaIndView {
    pub stack_id: u8,
    pub regs: MegaIndRegs,
}

/// Whether bit `i` of the opto-input byte `val` is set (channel `i + 1`).
pub open spec fn spec_opto_bit(val: u8, i: int) -> bool {
    (val >> (i as u8)) & 1u8 == 1u8
}

/// The error text for an open-drain channel outside 1–4.
pub open spec fn spec_od_range_message(channel: u8) -> Seq<char> {
    "OD channel must be 1–4, got "@ + spec_decimal(channel as nat)
}

/// Channel `ch` of the analog group whose first register is `base`: a read
/// of the channel's register (two apart from the previous one) that gave
/// the count `v`, or a failed read, counted as 0.
pub open spec fn spec_analog_step(la: Seq<BusEvent>, lb: Seq<BusEvent>, base: u8, ch: int, v: u16) -> bool {
    ||| lb == la + spec_select_read(spec_channel_reg(base, ch), spec_le_bytes(v))
    ||| spec_select_read_failed(la, lb, spec_channel_reg(base, ch)) && v == 0
}

/// `logs` walks from `log0` to `log1` through the channel reads of the
/// analog group at `base` that gave `counts`, channel by channel.
pub open spec fn spec_analog_chain(
    logs: Seq<Seq<BusEvent>>,
    log0: Seq<BusEvent>,
    log1: Seq<BusEvent>,
    base: u8,
    counts: Seq<u16>,
) -> bool {
    let n = counts.len() as int;
    &&& logs.len() == n + 1
    &&& logs[0] == log0
    &&& logs[n] == log1
    &&& forall|ch: int| 0 <= ch < n ==> #[trigger] spec_analog_step(logs[ch], logs[ch + 1], base, ch, counts[ch])
}

/// `log1` is `log0` followed by the channel reads of the analog group at
/// `base`, in channel order, that gave `counts`.
pub open spec fn spec_analog_read(log0: Seq<BusEvent>, log1: Seq<BusEvent>, base: u8, counts: Seq<u16>) -> bool {
    exists|logs: Seq<Seq<BusEvent>>| #[trigger] spec_analog_chain(logs, log0, log1, base, counts)
}

/// Driver of a Mega-Industrial HAT on the bus `B`.
pub struct MegaIndBoard<B: I2cBus> {
    bus: B,
    stack_id: u8,
    regs: MegaIndRegs,
    log: Ghost<Seq<BusEvent>>,
}

impl<B: I2cBus> View for MegaIndBoard<B> {
    type V = MegaIndView;

    closed spec fn view(&self) -> MegaIndView {
        MegaIndView { stack_id: self.stack_id, regs: self.regs }
    }
}

fn opto_bits(val: u8) -> (bits: [bool; 8])
    ensures
        forall|i: int| 0 <= i < 8 ==> #[trigger] bits@[i] == spec_opto_bit(val, i),
{
    let mut bits = [false; 8];
    let mut i: usize = 0;
    while i < 8
        invariant
            i <= 8,
            bits@.len() == 8,
            forall|j: int| 0 <= j < i ==> #[trigger] bits@[j] == spec_opto_bit(val, j),
        decreases 8 - i,
    {
        bits[i] = (val >> (i as u8)) & 1u8 == 1u8;
        i += 1;
    }
    bits
}

impl<B: I2cBus> MegaIndBoard<B> {
    /// The transactions this driver has made on its bus, oldest first.
    pub closed spec fn bus_log(&self) -> Seq<BusEvent> {
        self.log@
    }

    /// A board at `stack_id` on `bus` (already opened at the board's
    /// address), with the registers of `def`.
    pub fn new(bus: B, stack_id: u8, def: &BoardDef) -> (b: Self)
        ensures
            b@.stack_id == stack_id,
            b@.regs == spec_megaind_regs(def.registers),
            b.bus_log() == Seq::<BusEvent>::empty(),
    {
        MegaIndBoard { bus, stack_id, regs: regs_from_def(def), log: Ghost(Seq::empty()) }
    }

    /// Select `register`, then read `buf.len()` bytes.
    fn i2c_read(&mut self, register: u8, buf: &mut [u8]) -> (r: Result<(), BoardError>)
        ensures
            final(self)@ == old(self)@,
            r is Ok ==> final(self).bus_log() == old(self).bus_log() + spec_select_read(
                register,
                final(buf)@,
            ),
            r is Err ==> spec_select_read_failed(old(self).bus_log(), final(self).bus_log(), register),
    {
        let ghost log0 = self.log@;
        let select = [register];
        assert(select@ =~= seq![register]);
        match logged_write(&mut self.bus, &mut self.log, &select) {
            Ok(()) => {},
            Err(e) => {
                let mut ctx = String::from_str("I²C select register 0x");
                push_hex2(&mut ctx, register);
                return Err(with_context(e, ctx.as_str()));
            },
        }
        let n = buf.len();
        match logged_read(&mut self.bus, &mut self.log, buf) {
            Ok(()) => Ok(()),
            Err(e) => {
                assert(self.log@ =~= log0 + seq![BusEvent::Write(seq![register]), BusEvent::ReadFailed]);
                let mut ctx = String::from_str("I²C read ");
                push_decimal(&mut ctx, n as u64);
                ctx.append(" bytes from 0x");
                push_hex2(&mut ctx, register);
                Err(with_context(e, ctx.as_str()))
            },
        }
    }

    /// Write `register` followed by `data` in one transaction.
    fn i2c_write(&mut self, register: u8, data: &[u8]) -> (r: Result<(), BoardError>)
        ensures
            final(self)@ == old(self)@,
            final(self).bus_log() == old(self).bus_log().push(BusEvent::Write(seq![register] + data@)),
    {
        let mut buf: Vec<u8> = Vec::new();
        buf.push(register);
        let mut i: usize = 0;
        while i < data.len()
            invariant
                i <= data@.len(),
                buf@ == seq![register] + data@.subrange(0, i as int),
            decreases data@.len() - i,
        {
            buf.push(data[i]);
            i += 1;
            proof {
                assert(buf@ =~= seq![register] + data@.subrange(0, i as int));
            }
        }
        proof {
            assert(data@.subrange(0, data@.len() as int) =~= data@);
        }
        match logged_write(&mut self.bus, &mut self.log, buf.as_slice()) {
            Ok(()) => Ok(()),
            Err(e) => {
                let mut ctx = String::from_str("I²C write ");
                push_decimal(&mut ctx, data.len() as u64);
                ctx.append(" bytes to 0x");
                push_hex2(&mut ctx, register);
                Err(with_context(e, ctx.as_str()))
            },
        }
    }

    /// A 16-bit little-endian value from a register pair.
    fn read_u16_le(&mut self, register: u8) -> (r: Result<u16, BoardError>)
        ensures
            final(self)@ == old(self)@,
            r matches Ok(v) ==> final(self).bus_log() == old(self).bus_log() + spec_select_read(
                register,
                spec_le_bytes(v),
            ),
            r is Err ==> spec_select_read_failed(old(self).bus_log(), final(self).bus_log(), register),
    {
        let mut buf = [0u8; 2];
        match self.i2c_read(register, &mut buf) {
            Ok(()) => {
                let v = le16(buf[0], buf[1]);
                assert(buf@ =~= spec_le_bytes(v));
                Ok(v)
            },
            Err(e) => Err(e),
        }
    }

    /// The 8 opto-isolated inputs: the input byte and each channel's
    /// state, channel 1 in bit 0.
    pub fn read_opto_inputs(&mut self) -> (r: Result<(u8, [bool; 8]), BoardError>)
        ensures
            final(self)@ == old(self)@,
            r matches Ok((val, bits)) ==> forall|i: int|
                0 <= i < 8 ==> #[trigger] bits@[i] == spec_opto_bit(val, i),
            r matches Ok((val, bits)) ==> final(self).bus_log() == old(self).bus_log()
                + spec_select_read(old(self)@.regs.opto_in, seq![val]),
            r is Err ==> spec_select_read_failed(
                old(self).bus_log(),
                final(self).bus_log(),
                old(self)@.regs.opto_in,
            ),
    {
        let mut buf = [0u8; 1];
        let reg = self.regs.opto_in;
        match self.i2c_read(reg, &mut buf) {
            Ok(()) => {
                let val = buf[0];
                assert(buf@ =~= seq![val]);
                Ok((val, opto_bits(val)))
            },
            Err(e) => Err(e),
        }
    }

    /// Raw count of channel `ch` of the analog group at `base`, or 0 when
    /// it cannot be read.
    fn read_channel(&mut self, base: u8, ch: usize) -> (v: u16)
        requires
            ch < 128,
        ensures
            final(self)@ == old(self)@,
            spec_analog_step(old(self).bus_log(), final(self).bus_log(), base, ch as int, v),
    {
        let reg = channel_reg(base, ch);
        match self.read_u16_le(reg) {
            Ok(raw) => raw,
            Err(_) => 0,
        }
    }

    /// Raw counts of the 8 × 4-20 mA inputs (registers two apart from the
    /// 4-20 mA input register on); a channel that cannot be read counts 0.
    pub fn read_4_20ma_inputs(&mut self) -> (r: Result<[u16; 8], BoardError>)
        ensures
            final(self)@ == old(self)@,
            r matches Ok(counts) && spec_analog_read(
                old(self).bus_log(),
                final(self).bus_log(),
                old(self)@.regs.i4_20_in,
                counts@,
            ),
    {
        let ghost log0 = self.log@;
        let mut readings = [0u16; 8];
        let base = self.regs.i4_20_in;
        let ghost mut logs: Seq<Seq<BusEvent>> = seq![log0];
        let mut ch: usize = 0;
        while ch < 8
            invariant
                ch <= 8,
                self@ == old(self)@,
                base == old(self)@.regs.i4_20_in,
                readings@.len() == 8,
                logs.len() == ch + 1,
                logs[0] == log0,
                logs[ch as int] == self.log@,
                forall|c: int|
                    0 <= c < ch ==> #[trigger] spec_analog_step(logs[c], logs[c + 1], base, c, readings@[c]),
            decreases 8 - ch,
        {
            let ghost la = self.log@;
            let v = self.read_channel(base, ch);
            let ghost before = readings@;
            readings[ch] = v;
            proof {
                let logs1 = logs.push(self.log@);
                assert forall|c: int| 0 <= c < ch + 1 implies #[trigger] spec_analog_step(
                    logs1[c],
                    logs1[c + 1],
                    base,
                    c,
                    readings@[c],
                ) by {
                    if c < ch {
                        assert(readings@[c] == before[c]);
                        assert(spec_analog_step(logs[c], logs[c + 1], base, c, before[c]));
                    }
                }
                logs = logs1;
            }
            ch += 1;
        }
        assert(spec_analog_chain(logs, log0, self.log@, base, readings@));
        Ok(readings)
    }

    /// Raw counts of the 4 × 0-10 V inputs (registers two apart from the
    /// 0-10 V input register on); a channel that cannot be read counts 0.
    pub fn read_0_10v_inputs(&mut self) -> (r: Result<[u16; 4], BoardError>)
        ensures
            final(self)@ == old(self)@,
            r matches Ok(counts) && spec_analog_read(
                old(self).bus_log(),
                final(self).bus_log(),
                old(self)@.regs.u0_10_in,
                counts@,
            ),
    {
        let ghost log0 = self.log@;
        let mut readings = [0u16; 4];
        let base = self.regs.u0_10_in;
        let ghost mut logs: Seq<Seq<BusEvent>> = seq![log0];
        let mut ch: usize = 0;
        while ch < 4
            invariant
                ch <= 4,
                self@ == old(self)@,
                base == old(self)@.regs.u0_10_in,
                readings@.len() == 4,
                logs.len() == ch + 1,
                logs[0] == log0,
                logs[ch as int] == self.log@,
                forall|c: int|
                    0 <= c < ch ==> #[trigger] spec_analog_step(logs[c], logs[c + 1], base, c, readings@[c]),
            decreases 4 - ch,
        {
            let ghost la = self.log@;
            let v = self.read_channel(base, ch);
            let ghost before = readings@;
            readings[ch] = v;
            proof {
                let logs1 = logs.push(self.log@);
                assert forall|c: int| 0 <= c < ch + 1 implies #[trigger] spec_analog_step(
                    logs1[c],
                    logs1[c + 1],
                    base,
                    c,
                    readings@[c],
                ) by {
                    if c < ch {
                        assert(readings@[c] == before[c]);
                        assert(spec_analog_step(logs[c], logs[c + 1], base, c, before[c]));
                    }
                }
                logs = logs1;
            }
            ch += 1;
        }
        assert(spec_analog_chain(logs, log0, self.log@, base, readings@));
        Ok(readings)
    }

    /// Raw count of the 24 V supply diagnostic.
    pub fn read_system_voltage(&mut self) -> (r: Result<u16, BoardError>)
        ensures
            final(self)@ == old(self)@,
            r matches Ok(v) ==> final(self).bus_log() == old(self).bus_log() + spec_select_read(
                old(self)@.regs.diag_24v,
                spec_le_bytes(v),
            ),
            r is Err ==> spec_select_read_failed(
                old(self).bus_log(),
                final(self).bus_log(),
                old(self)@.regs.diag_24v,
            ),
    {
        let reg = self.regs.diag_24v;
        self.read_u16_le(reg)
    }

    /// Switch open-drain output `channel` (1–4) on or off: the channel
    /// number goes to the relay SET register to switch on, to the CLR
    /// register to switch off.
    pub fn set_od_output(&mut self, channel: u8, state: bool) -> (r: Result<(), BoardError>)
        ensures
            final(self)@ == old(self)@,
            !(1 <= channel <= 4) ==> (r matches Err(e) && e.message@ == spec_od_range_message(
                channel,
            )) && final(self).bus_log() == old(self).bus_log(),
            1 <= channel <= 4 ==> final(self).bus_log() == old(self).bus_log().push(
                BusEvent::Write(
                    seq![
                        if state {
                            old(self)@.regs.relay_set
                        } else {
                            old(self)@.regs.relay_clr
                        },
                        channel,
                    ],
                ),
            ),
    {
        if channel < 1 || channel > 4 {
            let mut m = String::from_str("OD channel must be 1–4, got ");
            push_decimal(&mut m, channel as u64);
            return Err(BoardError { message: m });
        }
        let register = if state {
            self.regs.relay_set
        } else {
            self.regs.relay_clr
        };
        let data = [channel];
        assert(data@ =~= seq![channel]);
        let r = self.i2c_write(register, &data);
        assert(seq![register] + seq![channel] =~= seq![register, channel]);
        r
    }

    /// Firmware version (major, minor) from the revision registers.
    pub fn read_firmware_version(&mut self) -> (r: Result<(u8, u8), BoardError>)
        ensures
            final(self)@ == old(self)@,
            r matches Ok((major, minor)) ==> final(self).bus_log() == old(self).bus_log()
                + spec_select_read(old(self)@.regs.revision_major, seq![major, minor]),
            r is Err ==> spec_select_read_failed(
                old(self).bus_log(),
                final(self).bus_log(),
                old(self)@.regs.revision_major,
            ),
    {
        let mut buf = [0u8; 2];
        let reg = self.regs.revision_major;
        match self.i2c_read(reg, &mut buf) {
            Ok(()) => {
                assert(buf@ =~= seq![buf[0], buf[1]]);
                Ok((buf[0], buf[1]))
            },
            Err(e) => Err(e),
        }
    }

    /// The stack ID (for logging).
    pub fn stack_id(&self) -> (s: u8)
        ensures
            s == self@.stack_id,
    {
        self.stack_id
    }

    /// Raw counts per milliamp or volt of the analog readings.
    pub fn voltage_scale(&self) -> (s: u32)
        ensures
            s == self@.regs.voltage_scale,
    {
        self.regs.voltage_scale
    }
}

} // verus!
