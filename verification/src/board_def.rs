//! Board definitions: the register maps that drive the generic I²C driver.
//!
//! Each board type (MegaInd, 16-Relay, 8-Relay, …) is described by a TOML
//! file that the application parses into a [`BoardDef`].  The compiled-in
//! `default_*` definitions are a deprecated migration aid, reachable only
//! with `--builtin-defaults`.
//!
//! Scales are integers: raw I²C units per physical unit (`i2c_scale`, e.g.
//! 1000 for mV → V) and Modbus units per physical unit (`modbus_scale`,
//! e.g. 100 for V × 100).
use vstd::prelude::*;
use vstd::string::StringExecFns;

verus! {

/// Complete board definition.
#[derive(Debug)]
pub struct BoardDef {
    pub board: BoardInfo,
    pub address: AddressConfig,
    pub channels: ChannelConfig,
    pub registers: RegisterMap,
    pub pca9535: Option<Pca9535Config>,
    pub io_groups: Vec<IoGroup>,
}

/// Board identity and protocol selection.
#[derive(Debug)]
pub struct BoardInfo {
    /// Human-readable board name (for logging).
    pub name: String,
    /// Protocol handler: `"sequent_mcu"` or `"pca9535"`.
    pub protocol: String,
}

/// I²C address calculation parameters.
#[derive(Debug)]
pub struct AddressConfig {
    /// Base I²C address (e.g. `0x20` for 16-Relay, `0x50` for MegaInd).
    pub base: u16,
    /// `"xor7"` → `(base + stack_id) ^ 0x07`; anything else (`"direct"`)
    /// → `base + stack_id`.
    pub mode: String,
}

/// Channel counts and remapping tables.
#[derive(Debug)]
pub struct ChannelConfig {
    /// Number of relay channels.
    pub relays: Option<usize>,
    /// Channel-to-bit remapping: index `N-1` → bit position of relay `N`.
    pub relay_remap: Option<Vec<u8>>,
    pub opto_inputs: Option<usize>,
    pub analog_4_20ma_inputs: Option<usize>,
    pub analog_0_10v_inputs: Option<usize>,
    pub od_outputs: Option<usize>,
    pub analog_0_10v_outputs: Option<usize>,
    pub analog_4_20ma_outputs: Option<usize>,
}

/// Register addresses for Sequent custom-MCU boards.
#[derive(Debug)]
pub struct RegisterMap {
    pub relay_val: Option<u8>,
    pub relay_set: Option<u8>,
    pub relay_clr: Option<u8>,
    pub opto_in: Option<u8>,
    pub u0_10_out: Option<u8>,
    pub i4_20_out: Option<u8>,
    pub od_pwm: Option<u8>,
    pub u0_10_in: Option<u8>,
    pub u_pm_10_in: Option<u8>,
    pub i4_20_in: Option<u8>,
    pub calib_value: Option<u8>,
    pub diag_temperature: Option<u8>,
    pub diag_24v: Option<u8>,
    pub diag_5v: Option<u8>,
    pub revision_major: Option<u8>,
    pub revision_minor: Option<u8>,
    /// Raw register units per volt (or per milliamp).
    pub voltage_scale: Option<u32>,
}

/// PCA9535 I/O-expander register addresses.
#[derive(Debug, Clone, Copy, PartialEq, Eq, Structural)]
pub struct Pca9535Config {
    /// Output Port register (read/write, 2 bytes LE).
    pub outport_reg: u8,
    /// Input Port register (read, 2 bytes LE).
    pub inport_reg: u8,
    /// Configuration register (0 = output, 1 = input, 2 bytes LE).
    pub config_reg: u8,
}

/// I/O group descriptor: one set of I²C channels with one protocol
/// operation and its place in the Modbus data bank.
///
/// | `op`               | Dir    | Description                          |
/// |--------------------|--------|--------------------------------------|
/// | `read_u8_bitmask`  | input  | 1-byte bitmask → discrete inputs     |
/// | `read_u16_bitmask` | input  | 2-byte LE bitmask → discrete inputs  |
/// | `read_u16_le`      | input  | N × 2-byte LE → holding registers    |
/// | `write_set_clr`    | output | channel number to SET/CLR register   |
/// | `write_u16_le`     | output | N × 2-byte LE from holding registers |
/// | `pca9535_rmw_bit`  | output | read-modify-write on a 16-bit port   |
#[derive(Debug)]
pub struct IoGroup {
    pub name: String,
    /// `"input"` or `"output"`.
    pub direction: String,
    pub op: String,
    pub register: Option<u8>,
    pub register_set: Option<u8>,
    pub register_clr: Option<u8>,
    pub channels: usize,
    /// Raw I²C units per physical unit.
    pub i2c_scale: u32,
    /// Modbus register units per physical unit.
    pub modbus_scale: u32,
    /// `"coil"`, `"discrete_input"` or `"holding_register"`.
    pub modbus_region: String,
    pub modbus_offset: usize,
    /// Channel-to-bit remapping (for `pca9535_rmw_bit`).
    pub bit_remap: Option<Vec<u8>>,
}

/// Abstract value of an [`IoGroup`].
pub struct IoGroupView {
    pub name: Seq<char>,
    pub direction: Seq<char>,
    pub op: Seq<char>,
    pub register: Option<u8>,
    pub register_set: Option<u8>,
    pub register_clr: Option<u8>,
    pub channels: usize,
    pub i2c_scale: u32,
    pub modbus_scale: u32,
    pub modbus_region: Seq<char>,
    pub modbus_offset: usize,
    pub bit_remap: Option<Seq<u8>>,
}

/// View of an optional byte vector.
pub open spec fn opt_bytes(o: Option<Vec<u8>>) -> Option<Seq<u8>> {
    match o {
        Some(v) => Some(v@),
        None => None,
    }
}

impl View for IoGroup {
    type V = IoGroupView;

    open spec fn view(&self) -> IoGroupView {
        IoGroupView {
            name: self.name@,
            direction: self.direction@,
            op: self.op@,
            register: self.register,
            register_set: self.register_set,
            register_clr: self.register_clr,
            channels: self.channels,
            i2c_scale: self.i2c_scale,
            modbus_scale: self.modbus_scale,
            modbus_region: self.modbus_region@,
            modbus_offset: self.modbus_offset,
            bit_remap: opt_bytes(self.bit_remap),
        }
    }
}

/// Views of a sequence of I/O groups.
pub open spec fn groups_view(gs: Seq<IoGroup>) -> Seq<IoGroupView> {
    gs.map_values(|g: IoGroup| g@)
}

/// Whether `s` holds the text of `lit`.
pub fn str_is(s: &String, lit: &str) -> (b: bool)
    ensures
        b == (s@ == lit@),
{
    let l = String::from_str(lit);
    *s == l
}

/// Copy of a byte vector.
pub fn copy_bytes(v: &Vec<u8>) -> (r: Vec<u8>)
    ensures
        r@ == v@,
{
    let mut r: Vec<u8> = Vec::with_capacity(v.len());
    let mut i: usize = 0;
    while i < v.len()
        invariant
            i <= v@.len(),
            r@ == v@.subrange(0, i as int),
        decreases v@.len() - i,
    {
        r.push(v[i]);
        i += 1;
        proof {
            assert(r@ =~= v@.subrange(0, i as int));
        }
    }
    proof {
        assert(v@.subrange(0, v@.len() as int) =~= v@);
    }
    r
}

/// Copy of an optional byte vector.
pub fn copy_opt_bytes(v: &Option<Vec<u8>>) -> (r: Option<Vec<u8>>)
    ensures
        opt_bytes(r) == opt_bytes(*v),
{
    match v {
        Some(b) => Some(copy_bytes(b)),
        None => None,
    }
}

/// The I²C address of a board at `stack_id` with base `base` in `mode`.
pub open spec fn spec_resolve(base: u16, mode: Seq<char>, stack_id: u8) -> u16 {
    if mode == "xor7"@ {
        ((base + stack_id) as u16) ^ 7u16
    } else {
        (base + stack_id) as u16
    }
}

impl AddressConfig {
    /// The I²C slave address for a stack ID (see [`AddressConfig::resolve`]),
    /// or `None` when `base + stack_id` does not fit in 16 bits.
    pub fn checked_resolve(&self, stack_id: u8) -> (addr: Option<u16>)
        ensures
            addr == if self.base + stack_id <= u16::MAX {
                Some(spec_resolve(self.base, self.mode@, stack_id))
            } else {
                None::<u16>
            },
    {
        if self.base > u16::MAX - stack_id as u16 {
            None
        } else {
            Some(self.resolve(stack_id))
        }
    }

    /// The actual I²C slave address for a stack ID: `base + stack_id`,
    /// XOR `0x07` in `"xor7"` mode.
    pub fn resolve(&self, stack_id: u8) -> (addr: u16)
        requires
            self.base + stack_id <= u16::MAX,
        ensures
            addr == spec_resolve(self.base, self.mode@, stack_id),
    {
        let raw = self.base + stack_id as u16;
        if str_is(&self.mode, "xor7") {
            raw ^ 0x07
        } else {
            raw
        }
    }
}

/// An I/O group with the given fields.
pub open spec fn spec_group(
    name: Seq<char>,
    direction: Seq<char>,
    op: Seq<char>,
    register: Option<u8>,
    register_set: Option<u8>,
    register_clr: Option<u8>,
    channels: usize,
    i2c_scale: u32,
    modbus_scale: u32,
    modbus_region: Seq<char>,
    modbus_offset: usize,
    bit_remap: Option<Seq<u8>>,
) -> IoGroupView {
    IoGroupView {
        name,
        direction,
        op,
        register,
        register_set,
        register_clr,
        channels,
        i2c_scale,
        modbus_scale,
        modbus_region,
        modbus_offset,
        bit_remap,
    }
}

fn make_group(
    name: &str,
    direction: &str,
    op: &str,
    register: Option<u8>,
    register_set: Option<u8>,
    register_clr: Option<u8>,
    channels: usize,
    i2c_scale: u32,
    modbus_scale: u32,
    modbus_region: &str,
    modbus_offset: usize,
    bit_remap: Option<Vec<u8>>,
) -> (g: IoGroup)
    ensures
        g@ == spec_group(
            name@,
            direction@,
            op@,
            register,
            register_set,
            register_clr,
            channels,
            i2c_scale,
            modbus_scale,
            modbus_region@,
            modbus_offset,
            opt_bytes(bit_remap),
        ),
{
    IoGroup {
        name: String::from_str(name),
        direction: String::from_str(direction),
        op: String::from_str(op),
        register,
        register_set,
        register_clr,
        channels,
        i2c_scale,
        modbus_scale,
        modbus_region: String::from_str(modbus_region),
        modbus_offset,
        bit_remap,
    }
}

impl Default for IoGroup {
    /// Empty strings, no registers, 0 channels, both scales 1, offset 0.
    fn default() -> (g: Self)
        ensures
            g@ == spec_group(
                Seq::empty(),
                Seq::empty(),
                Seq::empty(),
                None,
                None,
                None,
                0,
                1,
                1,
                Seq::empty(),
                0,
                None,
            ),
    {
        IoGroup {
            name: String::new(),
            direction: String::new(),
            op: String::new(),
            register: None,
            register_set: None,
            register_clr: None,
            channels: 0,
            i2c_scale: 1,
            modbus_scale: 1,
            modbus_region: String::new(),
            modbus_offset: 0,
            bit_remap: None,
        }
    }
}

impl Default for ChannelConfig {
    /// Every count and the remap table unset.
    fn default() -> (c: Self)
        ensures
            c.relays is None,
            c.relay_remap is None,
            c.opto_inputs is None,
            c.analog_4_20ma_inputs is None,
            c.analog_0_10v_inputs is None,
            c.od_outputs is None,
            c.analog_0_10v_outputs is None,
            c.analog_4_20ma_outputs is None,
    {
        ChannelConfig {
            relays: None,
            relay_remap: None,
            opto_inputs: None,
            analog_4_20ma_inputs: None,
            analog_0_10v_inputs: None,
            od_outputs: None,
            analog_0_10v_outputs: None,
            analog_4_20ma_outputs: None,
        }
    }
}

/// Whether every register address and the scale of a map are unset.
pub open spec fn spec_register_map_empty(r: RegisterMap) -> bool {
    &&& r.relay_val is None
    &&& r.relay_set is None
    &&& r.relay_clr is None
    &&& r.opto_in is None
    &&& r.u0_10_out is None
    &&& r.i4_20_out is None
    &&& r.od_pwm is None
    &&& r.u0_10_in is None
    &&& r.u_pm_10_in is None
    &&& r.i4_20_in is None
    &&& r.calib_value is None
    &&& r.diag_temperature is None
    &&& r.diag_24v is None
    &&& r.diag_5v is None
    &&& r.revision_major is None
    &&& r.revision_minor is None
    &&& r.voltage_scale is None
}

impl Default for RegisterMap {
    /// Every register address and the scale unset.
    fn default() -> (r: Self)
        ensures
            spec_register_map_empty(r),
    {
        RegisterMap {
            relay_val: None,
            relay_set: None,
            relay_clr: None,
            opto_in: None,
            u0_10_out: None,
            i4_20_out: None,
            od_pwm: None,
            u0_10_in: None,
            u_pm_10_in: None,
            i4_20_in: None,
            calib_value: None,
            diag_temperature: None,
            diag_24v: None,
            diag_5v: None,
            revision_major: None,
            revision_minor: None,
            voltage_scale: None,
        }
    }
}


// ── I/O group synthesis ──────────────────────────────────────────────

/// A one-element sequence when `cond` holds, else the empty sequence.
pub open spec fn opt_group(cond: bool, g: IoGroupView) -> Seq<IoGroupView> {
    if cond {
        seq![g]
    } else {
        seq![]
    }
}

/// Default relay remap for `count` relays: relay `j + 1` drives bit
/// `count - 1 - j` (truncated to a byte).
pub open spec fn spec_reverse_remap(count: usize) -> Seq<u8> {
    Seq::new(count as nat, |j: int| (count - 1 - j) as u8)
}

/// I/O groups synthesized for a PCA9535 board: a read-modify-write relay
/// group on the output port, then a bitmask input group on the input port.
pub open spec fn spec_pca9535_groups(ch: ChannelConfig, pca: Option<Pca9535Config>) -> Seq<IoGroupView> {
    opt_group(
        ch.relays is Some && pca is Some && ch.relays->0 > 0,
        spec_group(
            "Relays"@,
            "output"@,
            "pca9535_rmw_bit"@,
            Some(pca->0.outport_reg),
            None,
            None,
            ch.relays->0,
            1,
            1,
            "coil"@,
            0,
            Some(
                match opt_bytes(ch.relay_remap) {
                    Some(r) => r,
                    None => spec_reverse_remap(ch.relays->0),
                },
            ),
        ),
    ) + opt_group(
        ch.opto_inputs is Some && pca is Some && ch.opto_inputs->0 > 0,
        spec_group(
            "Digital inputs"@,
            "input"@,
            "read_u16_bitmask"@,
            Some(pca->0.inport_reg),
            None,
            None,
            ch.opto_inputs->0,
            1,
            1,
            "discrete_input"@,
            0,
            None,
        ),
    )
}

/// Scale of an MCU board: its `voltage_scale`, 1000 when unset.
pub open spec fn spec_mcu_scale(r: RegisterMap) -> u32 {
    match r.voltage_scale {
        Some(s) => s,
        None => 1000,
    }
}

/// Input groups synthesized for a Sequent MCU board, in order: 4-20 mA
/// inputs (HR 0), PSU voltage (HR 8), 0-10 V inputs (HR 10), opto inputs.
pub open spec fn spec_mcu_input_groups(ch: ChannelConfig, r: RegisterMap) -> Seq<IoGroupView> {
    let scale = spec_mcu_scale(r);
    opt_group(
        ch.analog_4_20ma_inputs is Some && r.i4_20_in is Some,
        spec_group(
            "4-20mA inputs"@,
            "input"@,
            "read_u16_le"@,
            r.i4_20_in,
            None,
            None,
            ch.analog_4_20ma_inputs->0,
            scale,
            100,
            "holding_register"@,
            0,
            None,
        ),
    ) + opt_group(
        r.diag_24v is Some,
        spec_group(
            "PSU voltage"@,
            "input"@,
            "read_u16_le"@,
            r.diag_24v,
            None,
            None,
            1,
            scale,
            100,
            "holding_register"@,
            8,
            None,
        ),
    ) + opt_group(
        ch.analog_0_10v_inputs is Some && r.u0_10_in is Some,
        spec_group(
            "0-10V inputs"@,
            "input"@,
            "read_u16_le"@,
            r.u0_10_in,
            None,
            None,
            ch.analog_0_10v_inputs->0,
            scale,
            100,
            "holding_register"@,
            10,
            None,
        ),
    ) + opt_group(
        ch.opto_inputs is Some && r.opto_in is Some,
        spec_group(
            "Opto inputs"@,
            "input"@,
            if ch.opto_inputs->0 > 8 {
                "read_u16_bitmask"@
            } else {
                "read_u8_bitmask"@
            },
            r.opto_in,
            None,
            None,
            ch.opto_inputs->0,
            1,
            1,
            "discrete_input"@,
            0,
            None,
        ),
    )
}

/// Output groups synthesized for a Sequent MCU board, in order: relays
/// (coil 0) and OD outputs (coil 16) through SET/CLR, 0-10 V outputs
/// (HR 16) and 4-20 mA outputs (HR 20).
pub open spec fn spec_mcu_output_groups(ch: ChannelConfig, r: RegisterMap) -> Seq<IoGroupView> {
    let scale = spec_mcu_scale(r);
    opt_group(
        ch.relays is Some && r.relay_set is Some && r.relay_clr is Some && ch.relays->0 > 0,
        spec_group(
            "Relays"@,
            "output"@,
            "write_set_clr"@,
            None,
            r.relay_set,
            r.relay_clr,
            ch.relays->0,
            1,
            1,
            "coil"@,
            0,
            None,
        ),
    ) + opt_group(
        ch.od_outputs is Some && r.relay_set is Some && r.relay_clr is Some && ch.od_outputs->0 > 0,
        spec_group(
            "OD outputs"@,
            "output"@,
            "write_set_clr"@,
            None,
            r.relay_set,
            r.relay_clr,
            ch.od_outputs->0,
            1,
            1,
            "coil"@,
            16,
            None,
        ),
    ) + opt_group(
        ch.analog_0_10v_outputs is Some && r.u0_10_out is Some,
        spec_group(
            "0-10V outputs"@,
            "output"@,
            "write_u16_le"@,
            r.u0_10_out,
            None,
            None,
            ch.analog_0_10v_outputs->0,
            scale,
            100,
            "holding_register"@,
            16,
            None,
        ),
    ) + opt_group(
        ch.analog_4_20ma_outputs is Some && r.i4_20_out is Some,
        spec_group(
            "4-20mA outputs"@,
            "output"@,
            "write_u16_le"@,
            r.i4_20_out,
            None,
            None,
            ch.analog_4_20ma_outputs->0,
            scale,
            100,
            "holding_register"@,
            20,
            None,
        ),
    )
}

/// I/O groups synthesized for a Sequent MCU board.
pub open spec fn spec_mcu_groups(ch: ChannelConfig, r: RegisterMap) -> Seq<IoGroupView> {
    spec_mcu_input_groups(ch, r) + spec_mcu_output_groups(ch, r)
}

/// The I/O groups a definition ends up with: its explicit groups when it
/// has any, else those synthesized for its protocol.
pub open spec fn spec_synthesized_groups(def: BoardDef) -> Seq<IoGroupView> {
    if def.io_groups@.len() > 0 {
        groups_view(def.io_groups@)
    } else if def.board.protocol@ == "pca9535"@ {
        spec_pca9535_groups(def.channels, def.pca9535)
    } else {
        spec_mcu_groups(def.channels, def.registers)
    }
}

/// View of an optional group as a sequence of at most one group.
pub open spec fn opt_view(g: Option<IoGroup>) -> Seq<IoGroupView> {
    match g {
        Some(x) => seq![x@],
        None => Seq::<IoGroupView>::empty(),
    }
}

fn reverse_remap(count: usize) -> (r: Vec<u8>)
    ensures
        r@ == spec_reverse_remap(count),
{
    let mut r: Vec<u8> = Vec::with_capacity(count);
    let mut j: usize = 0;
    while j < count
        invariant
            j <= count,
            r@ == spec_reverse_remap(count).subrange(0, j as int),
        decreases count - j,
    {
        r.push((count - 1 - j) as u8);
        j += 1;
        proof {
            assert(r@ =~= spec_reverse_remap(count).subrange(0, j as int));
        }
    }
    proof {
        assert(spec_reverse_remap(count).subrange(0, count as int) =~= spec_reverse_remap(count));
    }
    r
}

impl BoardDef {
    /// Synthesize `[[io_group]]` descriptors from the `[channels]` and
    /// `[registers]` sections when the definition has none; explicit
    /// groups always take priority and are left as they are.
    pub fn synthesize_io_groups(&mut self)
        ensures
            groups_view(final(self).io_groups@) == spec_synthesized_groups(*old(self)),
            final(self).board == old(self).board,
            final(self).address == old(self).address,
            final(self).channels == old(self).channels,
            final(self).registers == old(self).registers,
            final(self).pca9535 == old(self).pca9535,
    {
        if self.io_groups.len() > 0 {
            return;
        }
        proof {
            assert(groups_view(self.io_groups@) =~= Seq::empty());
        }
        if str_is(&self.board.protocol, "pca9535") {
            self.synthesize_pca9535_groups();
        } else {
            self.synthesize_mcu_groups();
        }
    }

    /// The I/O groups the definition ends up with (explicit groups, or
    /// those synthesized for its protocol), leaving the definition as it is.
    pub fn io_group_list(&self) -> (v: Vec<IoGroup>)
        ensures
            groups_view(v@) == spec_synthesized_groups(*self),
    {
        if self.io_groups.len() > 0 {
            copy_groups(&self.io_groups)
        } else if str_is(&self.board.protocol, "pca9535") {
            pca9535_group_list(&self.channels, self.pca9535)
        } else {
            let mut v = mcu_input_groups(&self.channels, &self.registers);
            let ghost first = v@;
            let mut outputs = mcu_output_groups(&self.channels, &self.registers);
            let ghost second = outputs@;
            v.append(&mut outputs);
            proof {
                assert(groups_view(v@) =~= groups_view(first) + groups_view(second));
            }
            v
        }
    }

    fn synthesize_pca9535_groups(&mut self)
        ensures
            groups_view(final(self).io_groups@) == groups_view(old(self).io_groups@)
                + spec_pca9535_groups(old(self).channels, old(self).pca9535),
            final(self).board == old(self).board,
            final(self).address == old(self).address,
            final(self).channels == old(self).channels,
            final(self).registers == old(self).registers,
            final(self).pca9535 == old(self).pca9535,
    {
        let groups = pca9535_group_list(&self.channels, self.pca9535);
        self.push_all(groups);
    }

    fn synthesize_mcu_groups(&mut self)
        ensures
            groups_view(final(self).io_groups@) == groups_view(old(self).io_groups@)
                + spec_mcu_groups(old(self).channels, old(self).registers),
            final(self).board == old(self).board,
            final(self).address == old(self).address,
            final(self).channels == old(self).channels,
            final(self).registers == old(self).registers,
            final(self).pca9535 == old(self).pca9535,
    {
        let ghost start = groups_view(self.io_groups@);
        let inputs = mcu_input_groups(&self.channels, &self.registers);
        let outputs = mcu_output_groups(&self.channels, &self.registers);
        self.push_all(inputs);
        self.push_all(outputs);
        proof {
            assert(groups_view(self.io_groups@) =~= start + spec_mcu_groups(
                self.channels,
                self.registers,
            ));
        }
    }

    fn push_all(&mut self, v: Vec<IoGroup>)
        ensures
            groups_view(final(self).io_groups@) == groups_view(old(self).io_groups@) + groups_view(v@),
            final(self).board == old(self).board,
            final(self).address == old(self).address,
            final(self).channels == old(self).channels,
            final(self).registers == old(self).registers,
            final(self).pca9535 == old(self).pca9535,
    {
        let ghost before = self.io_groups@;
        let ghost added = v@;
        let mut v = v;
        self.io_groups.append(&mut v);
        proof {
            assert(groups_view(self.io_groups@) =~= groups_view(before) + groups_view(added));
        }
    }
}

fn pca9535_group_list(ch: &ChannelConfig, pca: Option<Pca9535Config>) -> (v: Vec<IoGroup>)
    ensures
        groups_view(v@) == spec_pca9535_groups(*ch, pca),
{
    let mut relay_group: Option<IoGroup> = None;
    if let (Some(count), Some(p)) = (ch.relays, pca) {
        if count > 0 {
            let remap = match &ch.relay_remap {
                Some(r) => copy_bytes(r),
                None => reverse_remap(count),
            };
            relay_group = Some(
                make_group(
                    "Relays",
                    "output",
                    "pca9535_rmw_bit",
                    Some(p.outport_reg),
                    None,
                    None,
                    count,
                    1,
                    1,
                    "coil",
                    0,
                    Some(remap),
                ),
            );
        }
    }
    let mut input_group: Option<IoGroup> = None;
    if let (Some(count), Some(p)) = (ch.opto_inputs, pca) {
        if count > 0 {
            input_group = Some(
                make_group(
                    "Digital inputs",
                    "input",
                    "read_u16_bitmask",
                    Some(p.inport_reg),
                    None,
                    None,
                    count,
                    1,
                    1,
                    "discrete_input",
                    0,
                    None,
                ),
            );
        }
    }
    let ghost first = opt_view(relay_group);
    let ghost second = opt_view(input_group);
    assert(spec_pca9535_groups(*ch, pca) =~= first + second);
    let mut v: Vec<IoGroup> = Vec::new();
    assert(groups_view(v@) =~= Seq::empty());
    push_opt_vec(&mut v, relay_group);
    push_opt_vec(&mut v, input_group);
    assert(groups_view(v@) =~= first + second);
    v
}

/// Copy of an I/O group.
pub fn copy_group(g: &IoGroup) -> (r: IoGroup)
    ensures
        r@ == g@,
{
    IoGroup {
        name: g.name.clone(),
        direction: g.direction.clone(),
        op: g.op.clone(),
        register: g.register,
        register_set: g.register_set,
        register_clr: g.register_clr,
        channels: g.channels,
        i2c_scale: g.i2c_scale,
        modbus_scale: g.modbus_scale,
        modbus_region: g.modbus_region.clone(),
        modbus_offset: g.modbus_offset,
        bit_remap: copy_opt_bytes(&g.bit_remap),
    }
}

/// Copy of a list of I/O groups.
pub fn copy_groups(v: &Vec<IoGroup>) -> (r: Vec<IoGroup>)
    ensures
        groups_view(r@) == groups_view(v@),
{
    let mut r: Vec<IoGroup> = Vec::new();
    let mut i: usize = 0;
    while i < v.len()
        invariant
            i <= v@.len(),
            groups_view(r@) == groups_view(v@.subrange(0, i as int)),
        decreases v@.len() - i,
    {
        let ghost before = r@;
        r.push(copy_group(&v[i]));
        i += 1;
        proof {
            assert(groups_view(r@) =~= groups_view(before).push(v@[i - 1]@));
            assert(groups_view(v@.subrange(0, i as int)) =~= groups_view(v@.subrange(0, i - 1)).push(
                v@[i - 1]@,
            ));
        }
    }
    proof {
        assert(v@.subrange(0, v@.len() as int) =~= v@);
    }
    r
}

fn push_opt_vec(v: &mut Vec<IoGroup>, g: Option<IoGroup>)
    ensures
        groups_view(final(v)@) == groups_view(old(v)@) + opt_view(g),
{
    let ghost before = v@;
    let ghost added = opt_view(g);
    match g {
        Some(x) => {
            v.push(x);
        },
        None => {},
    }
    proof {
        assert(groups_view(v@) =~= groups_view(before) + added);
    }
}

fn mcu_scale(r: &RegisterMap) -> (s: u32)
    ensures
        s == spec_mcu_scale(*r),
{
    match r.voltage_scale {
        Some(s) => s,
        None => 1000,
    }
}

fn mcu_input_groups(ch: &ChannelConfig, r: &RegisterMap) -> (v: Vec<IoGroup>)
    ensures
        groups_view(v@) == spec_mcu_input_groups(*ch, *r),
{
    let scale = mcu_scale(r);
    let mut v: Vec<IoGroup> = Vec::new();
    let g1 = match (ch.analog_4_20ma_inputs, r.i4_20_in) {
        (Some(count), Some(reg)) => Some(
            make_group(
                "4-20mA inputs",
                "input",
                "read_u16_le",
                Some(reg),
                None,
                None,
                count,
                scale,
                100,
                "holding_register",
                0,
                None,
            ),
        ),
        _ => None,
    };
    push_opt_vec(&mut v, g1);
    let g2 = match r.diag_24v {
        Some(reg) => Some(
            make_group(
                "PSU voltage",
                "input",
                "read_u16_le",
                Some(reg),
                None,
                None,
                1,
                scale,
                100,
                "holding_register",
                8,
                None,
            ),
        ),
        None => None,
    };
    push_opt_vec(&mut v, g2);
    let g3 = match (ch.analog_0_10v_inputs, r.u0_10_in) {
        (Some(count), Some(reg)) => Some(
            make_group(
                "0-10V inputs",
                "input",
                "read_u16_le",
                Some(reg),
                None,
                None,
                count,
                scale,
                100,
                "holding_register",
                10,
                None,
            ),
        ),
        _ => None,
    };
    push_opt_vec(&mut v, g3);
    let g4 = match (ch.opto_inputs, r.opto_in) {
        (Some(count), Some(reg)) => {
            let op = if count > 8 {
                "read_u16_bitmask"
            } else {
                "read_u8_bitmask"
            };
            Some(
                make_group(
                    "Opto inputs",
                    "input",
                    op,
                    Some(reg),
                    None,
                    None,
                    count,
                    1,
                    1,
                    "discrete_input",
                    0,
                    None,
                ),
            )
        },
        _ => None,
    };
    push_opt_vec(&mut v, g4);
    proof {
        assert(groups_view(v@) =~= spec_mcu_input_groups(*ch, *r));
    }
    v
}

fn mcu_output_groups(ch: &ChannelConfig, r: &RegisterMap) -> (v: Vec<IoGroup>)
    ensures
        groups_view(v@) == spec_mcu_output_groups(*ch, *r),
{
    let scale = mcu_scale(r);
    let mut v: Vec<IoGroup> = Vec::new();
    let g5 = match (ch.relays, r.relay_set, r.relay_clr) {
        (Some(count), Some(set), Some(clr)) => if count > 0 {
            Some(
                make_group(
                    "Relays",
                    "output",
                    "write_set_clr",
                    None,
                    Some(set),
                    Some(clr),
                    count,
                    1,
                    1,
                    "coil",
                    0,
                    None,
                ),
            )
        } else {
            None
        },
        _ => None,
    };
    push_opt_vec(&mut v, g5);
    let g6 = match (ch.od_outputs, r.relay_set, r.relay_clr) {
        (Some(count), Some(set), Some(clr)) => if count > 0 {
            Some(
                make_group(
                    "OD outputs",
                    "output",
                    "write_set_clr",
                    None,
                    Some(set),
                    Some(clr),
                    count,
                    1,
                    1,
                    "coil",
                    16,
                    None,
                ),
            )
        } else {
            None
        },
        _ => None,
    };
    push_opt_vec(&mut v, g6);
    let g7 = match (ch.analog_0_10v_outputs, r.u0_10_out) {
        (Some(count), Some(reg)) => Some(
            make_group(
                "0-10V outputs",
                "output",
                "write_u16_le",
                Some(reg),
                None,
                None,
                count,
                scale,
                100,
                "holding_register",
                16,
                None,
            ),
        ),
        _ => None,
    };
    push_opt_vec(&mut v, g7);
    let g8 = match (ch.analog_4_20ma_outputs, r.i4_20_out) {
        (Some(count), Some(reg)) => Some(
            make_group(
                "4-20mA outputs",
                "output",
                "write_u16_le",
                Some(reg),
                None,
                None,
                count,
                scale,
                100,
                "holding_register",
                20,
                None,
            ),
        ),
        _ => None,
    };
    push_opt_vec(&mut v, g8);
    proof {
        assert(groups_view(v@) =~= spec_mcu_output_groups(*ch, *r));
    }
    v
}

/// Why a board definition could not be had.
#[derive(Debug)]
pub enum BoardDefError {
    /// No usable TOML file and built-in defaults not allowed; `underlying`
    /// is the load error.
    NotFound { path: String, underlying: String },
}

impl BoardDefError {
    /// The message shown to the user.
    pub fn message(&self) -> (m: String)
        ensures
            m@ == match self {
                BoardDefError::NotFound { path, underlying } => "Board definition not found: "@
                    + path@
                    + "\nEither create the TOML file or pass --builtin-defaults to use compiled-in register maps.\nUnderlying error: "@
                    + underlying@,
            },
    {
        match self {
            BoardDefError::NotFound { path, underlying } => {
                let mut m = String::from_str("Board definition not found: ");
                m.append(path.as_str());
                m.append(
                    "\nEither create the TOML file or pass --builtin-defaults to use compiled-in register maps.\nUnderlying error: ",
                );
                m.append(underlying.as_str());
                m
            },
        }
    }
}

/// Choose the definition of a board: the one loaded from `path` when the
/// load succeeded; otherwise `default` when built-in defaults are allowed;
/// otherwise a not-found error carrying the load error.
pub fn load_or_default(
    path: &str,
    loaded: Result<BoardDef, String>,
    default: BoardDef,
    allow_builtin: bool,
) -> (r: Result<BoardDef, BoardDefError>)
    ensures
        loaded is Ok ==> r == Ok::<BoardDef, BoardDefError>(loaded->Ok_0),
        loaded is Err && allow_builtin ==> r == Ok::<BoardDef, BoardDefError>(default),
        loaded is Err && !allow_builtin ==> (r matches Err(BoardDefError::NotFound { path: p, underlying: u })
            && p@ == path@ && u@ == loaded->Err_0@),
{
    match loaded {
        Ok(def) => Ok(def),
        Err(e) => if allow_builtin {
            Ok(default)
        } else {
            Err(BoardDefError::NotFound { path: String::from_str(path), underlying: e })
        },
    }
}

/// Whether a remap table is `remap` exactly.
pub open spec fn remap_is(r: Option<Vec<u8>>, remap: Seq<u8>) -> bool {
    opt_bytes(r) == Some(remap)
}

fn bytes_from(a: &[u8]) -> (v: Vec<u8>)
    ensures
        v@ == a@,
{
    let mut v: Vec<u8> = Vec::with_capacity(a.len());
    let mut i: usize = 0;
    while i < a.len()
        invariant
            i <= a@.len(),
            v@ == a@.subrange(0, i as int),
        decreases a@.len() - i,
    {
        v.push(a[i]);
        i += 1;
        proof {
            assert(v@ =~= a@.subrange(0, i as int));
        }
    }
    proof {
        assert(a@.subrange(0, a@.len() as int) =~= a@);
    }
    v
}

/// The compiled definition of the Sequent MegaInd Industrial HAT.
pub open spec fn spec_is_default_megaind(d: BoardDef) -> bool {
    &&& d.board.name@ == "Sequent MegaInd Industrial HAT"@
    &&& d.board.protocol@ == "sequent_mcu"@
    &&& d.address.base == 0x50
    &&& d.address.mode@ == "direct"@
    &&& d.channels.relays is None
    &&& d.channels.relay_remap is None
    &&& d.channels.opto_inputs == Some(8usize)
    &&& d.channels.analog_4_20ma_inputs == Some(8usize)
    &&& d.channels.analog_0_10v_inputs == Some(4usize)
    &&& d.channels.od_outputs == Some(4usize)
    &&& d.channels.analog_0_10v_outputs == Some(4usize)
    &&& d.channels.analog_4_20ma_outputs == Some(4usize)
    &&& d.registers.relay_val == Some(0x00u8)
    &&& d.registers.relay_set == Some(0x01u8)
    &&& d.registers.relay_clr == Some(0x02u8)
    &&& d.registers.opto_in == Some(0x03u8)
    &&& d.registers.u0_10_out == Some(0x04u8)
    &&& d.registers.i4_20_out == Some(0x0Cu8)
    &&& d.registers.od_pwm == Some(0x14u8)
    &&& d.registers.u0_10_in == Some(0x1Cu8)
    &&& d.registers.u_pm_10_in == Some(0x24u8)
    &&& d.registers.i4_20_in == Some(0x2Cu8)
    &&& d.registers.calib_value == Some(0x3Cu8)
    &&& d.registers.diag_temperature == Some(0x72u8)
    &&& d.registers.diag_24v == Some(0x73u8)
    &&& d.registers.diag_5v == Some(0x75u8)
    &&& d.registers.revision_major == Some(0x78u8)
    &&& d.registers.revision_minor == Some(0x79u8)
    &&& d.registers.voltage_scale == Some(1000u32)
    &&& d.pca9535 is None
    &&& d.io_groups@.len() == 0
}

/// The compiled definition of the Sequent 16-Relay HAT.
pub open spec fn spec_is_default_relay16(d: BoardDef) -> bool {
    &&& d.board.name@ == "Sequent 16-Relay HAT"@
    &&& d.board.protocol@ == "pca9535"@
    &&& d.address.base == 0x20
    &&& d.address.mode@ == "xor7"@
    &&& d.channels.relays == Some(16usize)
    &&& remap_is(
        d.channels.relay_remap,
        seq![15u8, 14u8, 13u8, 12u8, 11u8, 10u8, 9u8, 8u8, 7u8, 6u8, 5u8, 4u8, 3u8, 2u8, 1u8, 0u8],
    )
    &&& d.channels.opto_inputs is None
    &&& d.channels.analog_4_20ma_inputs is None
    &&& d.channels.analog_0_10v_inputs is None
    &&& d.channels.od_outputs is None
    &&& d.channels.analog_0_10v_outputs is None
    &&& d.channels.analog_4_20ma_outputs is None
    &&& spec_register_map_empty(d.registers)
    &&& d.pca9535 == Some(Pca9535Config { outport_reg: 0x02, inport_reg: 0x00, config_reg: 0x06 })
    &&& d.io_groups@.len() == 0
}

/// The compiled definition of the Sequent 8-Relay HAT.
pub open spec fn spec_is_default_relay8(d: BoardDef) -> bool {
    &&& d.board.name@ == "Sequent 8-Relay HAT"@
    &&& d.board.protocol@ == "pca9535"@
    &&& d.address.base == 0x38
    &&& d.address.mode@ == "xor7"@
    &&& d.channels.relays == Some(8usize)
    &&& remap_is(d.channels.relay_remap, seq![7u8, 6u8, 5u8, 4u8, 3u8, 2u8, 1u8, 0u8])
    &&& d.channels.opto_inputs is None
    &&& d.channels.analog_4_20ma_inputs is None
    &&& d.channels.analog_0_10v_inputs is None
    &&& d.channels.od_outputs is None
    &&& d.channels.analog_0_10v_outputs is None
    &&& d.channels.analog_4_20ma_outputs is None
    &&& spec_register_map_empty(d.registers)
    &&& d.pca9535 == Some(Pca9535Config { outport_reg: 0x02, inport_reg: 0x00, config_reg: 0x06 })
    &&& d.io_groups@.len() == 0
}

impl BoardDef {
    /// Compiled defaults for the Sequent MegaInd Industrial HAT
    /// (deprecated: `boards/megaind.toml` is the supported source).
    pub fn default_megaind() -> (d: Self)
        ensures
            spec_is_default_megaind(d),
    {
        BoardDef {
            board: BoardInfo {
                name: String::from_str("Sequent MegaInd Industrial HAT"),
                protocol: String::from_str("sequent_mcu"),
            },
            address: AddressConfig { base: 0x50, mode: String::from_str("direct") },
            channels: ChannelConfig {
                relays: None,
                relay_remap: None,
                opto_inputs: Some(8),
                analog_4_20ma_inputs: Some(8),
                analog_0_10v_inputs: Some(4),
                od_outputs: Some(4),
                analog_0_10v_outputs: Some(4),
                analog_4_20ma_outputs: Some(4),
            },
            registers: RegisterMap {
                relay_val: Some(0x00),
                relay_set: Some(0x01),
                relay_clr: Some(0x02),
                opto_in: Some(0x03),
                u0_10_out: Some(0x04),
                i4_20_out: Some(0x0C),
                od_pwm: Some(0x14),
                u0_10_in: Some(0x1C),
                u_pm_10_in: Some(0x24),
                i4_20_in: Some(0x2C),
                calib_value: Some(0x3C),
                diag_temperature: Some(0x72),
                diag_24v: Some(0x73),
                diag_5v: Some(0x75),
                revision_major: Some(0x78),
                revision_minor: Some(0x79),
                voltage_scale: Some(1000),
            },
            pca9535: None,
            io_groups: Vec::new(),
        }
    }

    /// Compiled defaults for the Sequent 16-Relay HAT
    /// (deprecated: `boards/relay16.toml` is the supported source).
    pub fn default_relay16() -> (d: Self)
        ensures
            spec_is_default_relay16(d),
    {
        let remap = bytes_from(&[15, 14, 13, 12, 11, 10, 9, 8, 7, 6, 5, 4, 3, 2, 1, 0]);
        proof {
            assert(remap@ =~= seq![15u8, 14u8, 13u8, 12u8, 11u8, 10u8, 9u8, 8u8, 7u8, 6u8, 5u8, 4u8, 3u8, 2u8, 1u8, 0u8]);
        }
        BoardDef {
            board: BoardInfo {
                name: String::from_str("Sequent 16-Relay HAT"),
                protocol: String::from_str("pca9535"),
            },
            address: AddressConfig { base: 0x20, mode: String::from_str("xor7") },
            channels: ChannelConfig {
                relays: Some(16),
                relay_remap: Some(remap),
                opto_inputs: None,
                analog_4_20ma_inputs: None,
                analog_0_10v_inputs: None,
                od_outputs: None,
                analog_0_10v_outputs: None,
                analog_4_20ma_outputs: None,
            },
            registers: RegisterMap::default(),
            pca9535: Some(Pca9535Config { outport_reg: 0x02, inport_reg: 0x00, config_reg: 0x06 }),
            io_groups: Vec::new(),
        }
    }

    /// Compiled defaults for the Sequent 8-Relay HAT
    /// (deprecated: `boards/relay8.toml` is the supported source).
    pub fn default_relay8() -> (d: Self)
        ensures
            spec_is_default_relay8(d),
    {
        let remap = bytes_from(&[7, 6, 5, 4, 3, 2, 1, 0]);
        proof {
            assert(remap@ =~= seq![7u8, 6u8, 5u8, 4u8, 3u8, 2u8, 1u8, 0u8]);
        }
        BoardDef {
            board: BoardInfo {
                name: String::from_str("Sequent 8-Relay HAT"),
                protocol: String::from_str("pca9535"),
            },
            address: AddressConfig { base: 0x38, mode: String::from_str("xor7") },
            channels: ChannelConfig {
                relays: Some(8),
                relay_remap: Some(remap),
                opto_inputs: None,
                analog_4_20ma_inputs: None,
                analog_0_10v_inputs: None,
                od_outputs: None,
                analog_0_10v_outputs: None,
                analog_4_20ma_outputs: None,
            },
            registers: RegisterMap::default(),
            pca9535: Some(Pca9535Config { outport_reg: 0x02, inport_reg: 0x00, config_reg: 0x06 }),
            io_groups: Vec::new(),
        }
    }
}

/// Explicit I/O groups take priority: synthesis leaves a definition that
/// already has groups with exactly those groups, so synthesizing twice
/// gives the same groups as synthesizing once.
pub proof fn lemma_explicit_groups_win(def: BoardDef)
    requires
        def.io_groups@.len() > 0,
    ensures
        spec_synthesized_groups(def) == groups_view(def.io_groups@),
{
}

/// Whether two channel configurations hold the same counts and remap.
pub open spec fn same_channels(a: ChannelConfig, b: ChannelConfig) -> bool {
    &&& a.relays == b.relays
    &&& opt_bytes(a.relay_remap) == opt_bytes(b.relay_remap)
    &&& a.opto_inputs == b.opto_inputs
    &&& a.analog_4_20ma_inputs == b.analog_4_20ma_inputs
    &&& a.analog_0_10v_inputs == b.analog_0_10v_inputs
    &&& a.od_outputs == b.od_outputs
    &&& a.analog_0_10v_outputs == b.analog_0_10v_outputs
    &&& a.analog_4_20ma_outputs == b.analog_4_20ma_outputs
}

/// Whether two board definitions hold the same values.
pub open spec fn same_def(a: BoardDef, b: BoardDef) -> bool {
    &&& a.board.name@ == b.board.name@
    &&& a.board.protocol@ == b.board.protocol@
    &&& a.address.base == b.address.base
    &&& a.address.mode@ == b.address.mode@
    &&& same_channels(a.channels, b.channels)
    &&& a.registers == b.registers
    &&& a.pca9535 == b.pca9535
    &&& groups_view(a.io_groups@) == groups_view(b.io_groups@)
}

impl ChannelConfig {
    /// A copy of the channel configuration.
    pub fn duplicate(&self) -> (c: ChannelConfig)
        ensures
            same_channels(c, *self),
    {
        ChannelConfig {
            relays: self.relays,
            relay_remap: copy_opt_bytes(&self.relay_remap),
            opto_inputs: self.opto_inputs,
            analog_4_20ma_inputs: self.analog_4_20ma_inputs,
            analog_0_10v_inputs: self.analog_0_10v_inputs,
            od_outputs: self.od_outputs,
            analog_0_10v_outputs: self.analog_0_10v_outputs,
            analog_4_20ma_outputs: self.analog_4_20ma_outputs,
        }
    }
}

impl BoardDef {
    /// A copy of the definition.
    pub fn duplicate(&self) -> (d: BoardDef)
        ensures
            same_def(d, *self),
    {
        let r = &self.registers;
        BoardDef {
            board: BoardInfo { name: self.board.name.clone(), protocol: self.board.protocol.clone() },
            address: AddressConfig { base: self.address.base, mode: self.address.mode.clone() },
            channels: self.channels.duplicate(),
            registers: RegisterMap {
                relay_val: r.relay_val,
                relay_set: r.relay_set,
                relay_clr: r.relay_clr,
                opto_in: r.opto_in,
                u0_10_out: r.u0_10_out,
                i4_20_out: r.i4_20_out,
                od_pwm: r.od_pwm,
                u0_10_in: r.u0_10_in,
                u_pm_10_in: r.u_pm_10_in,
                i4_20_in: r.i4_20_in,
                calib_value: r.calib_value,
                diag_temperature: r.diag_temperature,
                diag_24v: r.diag_24v,
                diag_5v: r.diag_5v,
                revision_major: r.revision_major,
                revision_minor: r.revision_minor,
                voltage_scale: r.voltage_scale,
            },
            pca9535: self.pca9535,
            io_groups: copy_groups(&self.io_groups),
        }
    }
}


/// Index of the last `.` among the first `n` characters of `name`.
pub open spec fn spec_last_dot(name: Seq<char>, n: nat) -> Option<int>
    decreases n,
{
    if n == 0 {
        None
    } else if name[n - 1] == '.' {
        Some(n - 1)
    } else {
        spec_last_dot(name, (n - 1) as nat)
    }
}

/// The slug of a board definition file: for a file name whose extension
/// (the text after its last `.`, when that `.` is not the first
/// character) is `toml`, the name before that `.`; no slug otherwise.
pub open spec fn spec_board_file_slug(name: Seq<char>) -> Option<Seq<char>> {
    match spec_last_dot(name, name.len()) {
        Some(i) => if i > 0 && name.subrange(i + 1, name.len() as int) == "toml"@ {
            Some(name.subrange(0, i))
        } else {
            None
        },
        None => None,
    }
}

/// The slug of a board definition file (see [`spec_board_file_slug`]).
pub fn board_file_slug(file_name: &str) -> (r: Option<String>)
    ensures
        match r {
            Some(s) => spec_board_file_slug(file_name@) == Some(s@),
            None => spec_board_file_slug(file_name@) is None,
        },
{
    let n = file_name.unicode_len();
    let mut i: usize = n;
    loop
        invariant
            i <= n,
            n == file_name@.len(),
            spec_last_dot(file_name@, n as nat) == spec_last_dot(file_name@, i as nat),
        decreases i,
    {
        if i == 0 {
            return None;
        }
        if file_name.get_char(i - 1) == '.' {
            let dot = i - 1;
            if dot == 0 {
                return None;
            }
            let ext = String::from_str(file_name.substring_char(i, n));
            if str_is(&ext, "toml") {
                return Some(String::from_str(file_name.substring_char(0, dot)));
            }
            return None;
        }
        i -= 1;
    }
}



/// Whether some group of `gs` is named `name`, runs in `direction`,
/// moves `channels` channels and serves `region` from `offset`.
pub open spec fn spec_serves(gs: Seq<IoGroupView>, name: Seq<char>, direction: Seq<char>, channels: usize, region: Seq<char>, offset: usize) -> bool {
    exists|i: int|
        0 <= i < gs.len() && (#[trigger] gs[i]).name == name && gs[i].direction == direction
            && gs[i].channels == channels && gs[i].modbus_region == region && gs[i].modbus_offset
            == offset
}

proof fn lemma_serves_at(gs: Seq<IoGroupView>, i: int)
    requires
        0 <= i < gs.len(),
    ensures
        spec_serves(gs, gs[i].name, gs[i].direction, gs[i].channels, gs[i].modbus_region, gs[i].modbus_offset),
{
}

proof fn lemma_serves_grows(
    gs: Seq<IoGroupView>,
    more: Seq<IoGroupView>,
    name: Seq<char>,
    direction: Seq<char>,
    channels: usize,
    region: Seq<char>,
    offset: usize,
)
    requires
        spec_serves(gs, name, direction, channels, region, offset),
    ensures
        spec_serves(gs + more, name, direction, channels, region, offset),
        spec_serves(more + gs, name, direction, channels, region, offset),
{
    let i = choose|i: int|
        0 <= i < gs.len() && (#[trigger] gs[i]).name == name && gs[i].direction == direction
            && gs[i].channels == channels && gs[i].modbus_region == region && gs[i].modbus_offset
            == offset;
    assert((gs + more)[i] == gs[i]);
    assert((more + gs)[more.len() + i] == gs[i]);
}

/// The input part of the MCU data-bank map.
#[verifier::spinoff_prover]
proof fn lemma_mcu_input_map(ch: ChannelConfig, r: RegisterMap)
    ensures
        ch.analog_4_20ma_inputs is Some && r.i4_20_in is Some ==> spec_serves(spec_mcu_input_groups(ch, r), "4-20mA inputs"@, "input"@, ch.analog_4_20ma_inputs->0, "holding_register"@, 0),
        r.diag_24v is Some ==> spec_serves(spec_mcu_input_groups(ch, r), "PSU voltage"@, "input"@, 1, "holding_register"@, 8),
        ch.analog_0_10v_inputs is Some && r.u0_10_in is Some ==> spec_serves(spec_mcu_input_groups(ch, r), "0-10V inputs"@, "input"@, ch.analog_0_10v_inputs->0, "holding_register"@, 10),
        ch.opto_inputs is Some && r.opto_in is Some ==> spec_serves(spec_mcu_input_groups(ch, r), "Opto inputs"@, "input"@, ch.opto_inputs->0, "discrete_input"@, 0),
{
    let gs = spec_mcu_input_groups(ch, r);
    let scale = spec_mcu_scale(r);
    let a = opt_group(
        ch.analog_4_20ma_inputs is Some && r.i4_20_in is Some,
        spec_group("4-20mA inputs"@, "input"@, "read_u16_le"@, r.i4_20_in, None, None, ch.analog_4_20ma_inputs->0, scale, 100, "holding_register"@, 0, None),
    );
    let b = opt_group(
        r.diag_24v is Some,
        spec_group("PSU voltage"@, "input"@, "read_u16_le"@, r.diag_24v, None, None, 1, scale, 100, "holding_register"@, 8, None),
    );
    let c = opt_group(
        ch.analog_0_10v_inputs is Some && r.u0_10_in is Some,
        spec_group("0-10V inputs"@, "input"@, "read_u16_le"@, r.u0_10_in, None, None, ch.analog_0_10v_inputs->0, scale, 100, "holding_register"@, 10, None),
    );
    let d = opt_group(
        ch.opto_inputs is Some && r.opto_in is Some,
        spec_group("Opto inputs"@, "input"@, if ch.opto_inputs->0 > 8 { "read_u16_bitmask"@ } else { "read_u8_bitmask"@ }, r.opto_in, None, None, ch.opto_inputs->0, 1, 1, "discrete_input"@, 0, None),
    );
    assert(gs == a + b + c + d);
    if a.len() > 0 {
        assert(gs[0] == a[0]);
        lemma_serves_at(gs, 0);
    }
    if b.len() > 0 {
        assert(gs[a.len() as int] == b[0]);
        lemma_serves_at(gs, a.len() as int);
    }
    if c.len() > 0 {
        assert(gs[(a.len() + b.len()) as int] == c[0]);
        lemma_serves_at(gs, (a.len() + b.len()) as int);
    }
    if d.len() > 0 {
        assert(gs[(a.len() + b.len() + c.len()) as int] == d[0]);
        lemma_serves_at(gs, (a.len() + b.len() + c.len()) as int);
    }
}

/// The output part of the MCU data-bank map.
#[verifier::spinoff_prover]
proof fn lemma_mcu_output_map(ch: ChannelConfig, r: RegisterMap)
    ensures
        ch.relays is Some && r.relay_set is Some && r.relay_clr is Some && ch.relays->0 > 0
            ==> spec_serves(spec_mcu_output_groups(ch, r), "Relays"@, "output"@, ch.relays->0, "coil"@, 0),
        ch.od_outputs is Some && r.relay_set is Some && r.relay_clr is Some && ch.od_outputs->0 > 0
            ==> spec_serves(spec_mcu_output_groups(ch, r), "OD outputs"@, "output"@, ch.od_outputs->0, "coil"@, 16),
        ch.analog_0_10v_outputs is Some && r.u0_10_out is Some ==> spec_serves(spec_mcu_output_groups(ch, r), "0-10V outputs"@, "output"@, ch.analog_0_10v_outputs->0, "holding_register"@, 16),
        ch.analog_4_20ma_outputs is Some && r.i4_20_out is Some ==> spec_serves(spec_mcu_output_groups(ch, r), "4-20mA outputs"@, "output"@, ch.analog_4_20ma_outputs->0, "holding_register"@, 20),
{
    let gs = spec_mcu_output_groups(ch, r);
    let scale = spec_mcu_scale(r);
    let e = opt_group(
        ch.relays is Some && r.relay_set is Some && r.relay_clr is Some && ch.relays->0 > 0,
        spec_group("Relays"@, "output"@, "write_set_clr"@, None, r.relay_set, r.relay_clr, ch.relays->0, 1, 1, "coil"@, 0, None),
    );
    let f = opt_group(
        ch.od_outputs is Some && r.relay_set is Some && r.relay_clr is Some && ch.od_outputs->0 > 0,
        spec_group("OD outputs"@, "output"@, "write_set_clr"@, None, r.relay_set, r.relay_clr, ch.od_outputs->0, 1, 1, "coil"@, 16, None),
    );
    let g = opt_group(
        ch.analog_0_10v_outputs is Some && r.u0_10_out is Some,
        spec_group("0-10V outputs"@, "output"@, "write_u16_le"@, r.u0_10_out, None, None, ch.analog_0_10v_outputs->0, scale, 100, "holding_register"@, 16, None),
    );
    let h = opt_group(
        ch.analog_4_20ma_outputs is Some && r.i4_20_out is Some,
        spec_group("4-20mA outputs"@, "output"@, "write_u16_le"@, r.i4_20_out, None, None, ch.analog_4_20ma_outputs->0, scale, 100, "holding_register"@, 20, None),
    );
    assert(gs == e + f + g + h);
    if e.len() > 0 {
        assert(gs[0] == e[0]);
        lemma_serves_at(gs, 0);
    }
    if f.len() > 0 {
        assert(gs[e.len() as int] == f[0]);
        lemma_serves_at(gs, e.len() as int);
    }
    if g.len() > 0 {
        assert(gs[(e.len() + f.len()) as int] == g[0]);
        lemma_serves_at(gs, (e.len() + f.len()) as int);
    }
    if h.len() > 0 {
        assert(gs[(e.len() + f.len() + g.len()) as int] == h[0]);
        lemma_serves_at(gs, (e.len() + f.len() + g.len()) as int);
    }
}

/// The data-bank map of a Sequent MCU board without explicit groups:
/// each synthesized group serves the part of the data bank the map
/// documents, with the definition's channel count — 4-20 mA inputs from
/// holding register 0, the PSU voltage at 8, 0-10 V inputs from 10, opto
/// inputs from discrete input 0, relays from coil 0, open-drain outputs
/// from coil 16, 0-10 V outputs from holding register 16 and 4-20 mA
/// outputs from 20.
pub proof fn lemma_mcu_data_bank_map(def: BoardDef)
    requires
        def.io_groups@.len() == 0,
        def.board.protocol@ != "pca9535"@,
    ensures
        ({
            let gs = spec_synthesized_groups(def);
            let ch = def.channels;
            let r = def.registers;
            &&& ch.analog_4_20ma_inputs is Some && r.i4_20_in is Some ==> spec_serves(gs, "4-20mA inputs"@, "input"@, ch.analog_4_20ma_inputs->0, "holding_register"@, 0)
            &&& r.diag_24v is Some ==> spec_serves(gs, "PSU voltage"@, "input"@, 1, "holding_register"@, 8)
            &&& ch.analog_0_10v_inputs is Some && r.u0_10_in is Some ==> spec_serves(gs, "0-10V inputs"@, "input"@, ch.analog_0_10v_inputs->0, "holding_register"@, 10)
            &&& ch.opto_inputs is Some && r.opto_in is Some ==> spec_serves(gs, "Opto inputs"@, "input"@, ch.opto_inputs->0, "discrete_input"@, 0)
            &&& ch.relays is Some && r.relay_set is Some && r.relay_clr is Some && ch.relays->0 > 0
                ==> spec_serves(gs, "Relays"@, "output"@, ch.relays->0, "coil"@, 0)
            &&& ch.od_outputs is Some && r.relay_set is Some && r.relay_clr is Some && ch.od_outputs->0
                > 0 ==> spec_serves(gs, "OD outputs"@, "output"@, ch.od_outputs->0, "coil"@, 16)
            &&& ch.analog_0_10v_outputs is Some && r.u0_10_out is Some ==> spec_serves(gs, "0-10V outputs"@, "output"@, ch.analog_0_10v_outputs->0, "holding_register"@, 16)
            &&& ch.analog_4_20ma_outputs is Some && r.i4_20_out is Some ==> spec_serves(gs, "4-20mA outputs"@, "output"@, ch.analog_4_20ma_outputs->0, "holding_register"@, 20)
        }),
{
    let ch = def.channels;
    let r = def.registers;
    let ins = spec_mcu_input_groups(ch, r);
    let outs = spec_mcu_output_groups(ch, r);
    assert(spec_synthesized_groups(def) == ins + outs);
    lemma_mcu_input_map(ch, r);
    lemma_mcu_output_map(ch, r);
    if ch.analog_4_20ma_inputs is Some && r.i4_20_in is Some {
        lemma_serves_grows(ins, outs, "4-20mA inputs"@, "input"@, ch.analog_4_20ma_inputs->0, "holding_register"@, 0);
    }
    if r.diag_24v is Some {
        lemma_serves_grows(ins, outs, "PSU voltage"@, "input"@, 1, "holding_register"@, 8);
    }
    if ch.analog_0_10v_inputs is Some && r.u0_10_in is Some {
        lemma_serves_grows(ins, outs, "0-10V inputs"@, "input"@, ch.analog_0_10v_inputs->0, "holding_register"@, 10);
    }
    if ch.opto_inputs is Some && r.opto_in is Some {
        lemma_serves_grows(ins, outs, "Opto inputs"@, "input"@, ch.opto_inputs->0, "discrete_input"@, 0);
    }
    if ch.relays is Some && r.relay_set is Some && r.relay_clr is Some && ch.relays->0 > 0 {
        lemma_serves_grows(outs, ins, "Relays"@, "output"@, ch.relays->0, "coil"@, 0);
    }
    if ch.od_outputs is Some && r.relay_set is Some && r.relay_clr is Some && ch.od_outputs->0 > 0 {
        lemma_serves_grows(outs, ins, "OD outputs"@, "output"@, ch.od_outputs->0, "coil"@, 16);
    }
    if ch.analog_0_10v_outputs is Some && r.u0_10_out is Some {
        lemma_serves_grows(outs, ins, "0-10V outputs"@, "output"@, ch.analog_0_10v_outputs->0, "holding_register"@, 16);
    }
    if ch.analog_4_20ma_outputs is Some && r.i4_20_out is Some {
        lemma_serves_grows(outs, ins, "4-20mA outputs"@, "output"@, ch.analog_4_20ma_outputs->0, "holding_register"@, 20);
    }
}


/// The data-bank map of a PCA9535 board without explicit groups: its
/// relays are served from coil 0 and its inputs from discrete input 0,
/// with the definition's channel counts.
pub proof fn lemma_pca9535_data_bank_map(def: BoardDef)
    requires
        def.io_groups@.len() == 0,
        def.board.protocol@ == "pca9535"@,
        def.pca9535 is Some,
    ensures
        def.channels.relays is Some && def.channels.relays->0 > 0 ==> spec_serves(spec_synthesized_groups(def), "Relays"@, "output"@, def.channels.relays->0, "coil"@, 0),
        def.channels.opto_inputs is Some && def.channels.opto_inputs->0 > 0 ==> spec_serves(spec_synthesized_groups(def), "Digital inputs"@, "input"@, def.channels.opto_inputs->0, "discrete_input"@, 0),
{
    let gs = spec_synthesized_groups(def);
    let ch = def.channels;
    let pca = def.pca9535;
    assert(gs == spec_pca9535_groups(ch, pca));
    let a = opt_group(
        ch.relays is Some && pca is Some && ch.relays->0 > 0,
        spec_group("Relays"@, "output"@, "pca9535_rmw_bit"@, Some(pca->0.outport_reg), None, None, ch.relays->0, 1, 1, "coil"@, 0, Some(match opt_bytes(ch.relay_remap) { Some(r) => r, None => spec_reverse_remap(ch.relays->0) })),
    );
    let b = opt_group(
        ch.opto_inputs is Some && pca is Some && ch.opto_inputs->0 > 0,
        spec_group("Digital inputs"@, "input"@, "read_u16_bitmask"@, Some(pca->0.inport_reg), None, None, ch.opto_inputs->0, 1, 1, "discrete_input"@, 0, None),
    );
    assert(gs == a + b);
    if a.len() > 0 {
        assert(gs[0] == a[0]);
        lemma_serves_at(gs, 0);
    }
    if b.len() > 0 {
        assert(gs[a.len() as int] == b[0]);
        lemma_serves_at(gs, a.len() as int);
    }
}

} // verus!
