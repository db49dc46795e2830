//! The analog-input, relay-write, open-drain and analog-output tests as
//! state machines: from the
//! test's state and what the last request brought, the next state, the
//! next request and the checks to record.  The caller performs each
//! request (a Modbus call or a pause) and hands back its outcome.
use vstd::prelude::*;
use vstd::string::StringExecFns;

use super::checks::{
    any_nonzero, bits_text, check, checks_view, drift_ok, first_all, labelled, labelled_number,
    psu_in_range, relay1_on, spec_bits_text, spec_first_all, CheckEntry, CheckView,
    COIL_OD_BASE, COIL_RELAY_BASE, DI_OPTO_BASE, HR_MA_IN_BASE, HR_MA_OUT_BASE, HR_PSU_VOLTAGE,
    HR_RELAY_READBACK, HR_VOLT_IN_BASE, HR_VOLT_OUT_BASE,
};
use super::scenario::ScenarioConfig;
use crate::cache::word_bit;
use crate::text::{
    join, push_decimal, push_hex4, spec_decimal, spec_hex4, spec_join, strings_view,
};

verus! {

/// A request of a test to its runner.
#[derive(Debug, Clone, Copy, PartialEq, Eq, Structural)]
pub enum ClientAction {
    /// Write one coil.
    WriteCoil { addr: u16, value: bool },
    /// Write one holding register.
    WriteRegister { addr: u16, value: u16 },
    /// Read `count` coils from `addr`.
    ReadCoils { addr: u16, count: u16 },
    /// Read `count` holding registers from `addr`; with `unit`, from that
    /// unit ID, returning to the client's own afterwards.
    ReadRegisters { unit: Option<u8>, addr: u16, count: u16 },
    /// Read `count` discrete inputs from `addr`.
    ReadInputs { addr: u16, count: u16 },
    /// Wait `ms` milliseconds.
    Pause { ms: u64 },
    /// The test is over.
    Done,
}

/// What a request brought back (an error as its text).
pub enum ClientEvent {
    /// The test starts.
    Started,
    /// A coil or register write finished.
    Written(Result<(), String>),
    /// A coil or discrete-input read finished.
    Bits(Result<Vec<bool>, String>),
    /// A holding-register read finished.
    Registers(Result<Vec<u16>, String>),
    /// A pause is over.
    Paused,
}

/// Where the relay-write test stands: the outcome it waits for.
#[derive(Debug, Clone, Copy, PartialEq, Eq, Structural)]
pub enum RelayStep {
    Start,
    /// Relay 1 switched on.
    OnWritten,
    OnPaused,
    /// Relay 1 read back.
    OnRead,
    ReadbackPaused,
    /// Register 24 read.
    ReadbackRead,
    /// Relay 1 switched off.
    OffWritten,
    OffPaused,
    /// Relay `i + 1` switched on, all before it on.
    AllOnWritten(u16),
    AllOnPaused,
    /// All relays read back.
    AllRead,
    /// Relay `i + 1` switched off.
    AllOffWritten(u16),
    AllOffPaused,
    /// All relays read back after the cleanup.
    CleanupRead,
    Finished,
}

/// One check.
pub open spec fn one(id: Seq<char>, desc: Seq<char>, passed: bool, detail: Seq<char>) -> Seq<
    CheckView,
> {
    seq![CheckView { id, desc, passed, detail }]
}

/// The first value of a read, 0 when it brought none.
pub open spec fn spec_first_register(regs: Seq<u16>) -> u16 {
    if regs.len() > 0 {
        regs[0]
    } else {
        0
    }
}

/// The first bit of a read, off when it brought none.
pub open spec fn spec_first_bit(bits: Seq<bool>) -> bool {
    bits.len() > 0 && bits[0]
}

/// `true` or `false`.
pub open spec fn spec_bool_text(b: bool) -> Seq<char> {
    if b {
        "true"@
    } else {
        "false"@
    }
}

/// After relay 1 was read back: the read-back register, when the
/// scenario has relay read-back, else switching relay 1 off.
pub open spec fn spec_after_relay1_read(cfg: ScenarioConfig) -> (RelayStep, ClientAction) {
    if cfg.relay_readback {
        (RelayStep::ReadbackPaused, ClientAction::Pause { ms: 1200 })
    } else {
        (RelayStep::OffWritten, ClientAction::WriteCoil { addr: COIL_RELAY_BASE, value: false })
    }
}

/// One step of the relay-write test over `cfg.relay_count` relays:
/// switch relay 1 on (stop if that fails), read it back, read register 24
/// when the scenario has relay read-back, switch relay 1 off, switch all
/// relays on one by one (stopping at the first failure), read them back,
/// switch them all off and read them back.  Pauses of 200 ms follow the
/// single writes, 1200 ms precede register 24, 300 ms follow the bulk
/// writes.  An outcome the step does not wait for ends the test.
pub open spec fn spec_relay_writes_step(cfg: ScenarioConfig, step: RelayStep, event: ClientEvent) -> (
    RelayStep,
    ClientAction,
    Seq<CheckView>,
) {
    let n = cfg.relay_count;
    let end = (RelayStep::Finished, ClientAction::Done, Seq::<CheckView>::empty());
    match (step, event) {
        (RelayStep::Start, ClientEvent::Started) => if n == 0 {
            end
        } else {
            (
                RelayStep::OnWritten,
                ClientAction::WriteCoil { addr: COIL_RELAY_BASE, value: true },
                Seq::empty(),
            )
        },
        (RelayStep::OnWritten, ClientEvent::Written(r)) => match r {
            Ok(_) => (
                RelayStep::OnPaused,
                ClientAction::Pause { ms: 200 },
                one("HR-01"@, "Write relay 1 ON (coil 0)"@, true, ""@),
            ),
            Err(e) => (
                RelayStep::Finished,
                ClientAction::Done,
                one("HR-01"@, "Write relay 1 ON"@, false, e@),
            ),
        },
        (RelayStep::OnPaused, ClientEvent::Paused) => (
            RelayStep::OnRead,
            ClientAction::ReadCoils { addr: COIL_RELAY_BASE, count: 1 },
            Seq::empty(),
        ),
        (RelayStep::OnRead, ClientEvent::Bits(r)) => {
            let next = spec_after_relay1_read(cfg);
            match r {
                Ok(bits) => (
                    next.0,
                    next.1,
                    one(
                        "HR-02"@,
                        "Read back relay 1 = ON"@,
                        spec_first_bit(bits@),
                        "coil[0]="@ + spec_bool_text(spec_first_bit(bits@)),
                    ),
                ),
                Err(e) => (next.0, next.1, one("HR-02"@, "Read back relay 1"@, false, e@)),
            }
        },
        (RelayStep::ReadbackPaused, ClientEvent::Paused) => (
            RelayStep::ReadbackRead,
            ClientAction::ReadRegisters {
                unit: cfg.spec_readback_unit_id(),
                addr: HR_RELAY_READBACK,
                count: 1,
            },
            Seq::empty(),
        ),
        (RelayStep::ReadbackRead, ClientEvent::Registers(r)) => {
            let entry = match r {
                Ok(regs) => one(
                    "HR-03"@,
                    "HR 24 read-back shows relay 1 ON"@,
                    word_bit(spec_first_register(regs@), 0),
                    "HR24=0x"@ + spec_hex4(spec_first_register(regs@)),
                ),
                Err(e) => one("HR-03"@, "HR 24 read-back"@, false, e@),
            };
            (
                RelayStep::OffWritten,
                ClientAction::WriteCoil { addr: COIL_RELAY_BASE, value: false },
                entry,
            )
        },
        (RelayStep::OffWritten, ClientEvent::Written(r)) => {
            let entry = match r {
                Ok(_) => one("HR-04"@, "Write relay 1 OFF"@, true, ""@),
                Err(e) => one("HR-04"@, "Write relay 1 OFF"@, false, e@),
            };
            (RelayStep::OffPaused, ClientAction::Pause { ms: 200 }, entry)
        },
        (RelayStep::OffPaused, ClientEvent::Paused) => (
            RelayStep::AllOnWritten(0),
            ClientAction::WriteCoil { addr: COIL_RELAY_BASE, value: true },
            Seq::empty(),
        ),
        (RelayStep::AllOnWritten(i), ClientEvent::Written(r)) => {
            let desc = "Toggle all "@ + spec_decimal(n as nat) + " relays ON"@;
            match r {
                Ok(_) => if i + 1 < n {
                    (
                        RelayStep::AllOnWritten((i + 1) as u16),
                        ClientAction::WriteCoil { addr: (COIL_RELAY_BASE + i + 1) as u16, value: true },
                        Seq::empty(),
                    )
                } else {
                    (
                        RelayStep::AllOnPaused,
                        ClientAction::Pause { ms: 300 },
                        one("HR-05"@, desc, true, ""@),
                    )
                },
                Err(_) => (
                    RelayStep::AllOnPaused,
                    ClientAction::Pause { ms: 300 },
                    one("HR-05"@, desc, false, ""@),
                ),
            }
        },
        (RelayStep::AllOnPaused, ClientEvent::Paused) => (
            RelayStep::AllRead,
            ClientAction::ReadCoils { addr: COIL_RELAY_BASE, count: n },
            Seq::empty(),
        ),
        (RelayStep::AllRead, ClientEvent::Bits(r)) => {
            let entry = match r {
                Ok(bits) => one(
                    "HR-06"@,
                    "All "@ + spec_decimal(n as nat) + " relay coils read back ON"@,
                    spec_first_all(bits@, n as int, true),
                    "coils="@ + spec_bits_text(bits@),
                ),
                Err(e) => one("HR-06"@, "Read back all relays"@, false, e@),
            };
            (
                RelayStep::AllOffWritten(0),
                ClientAction::WriteCoil { addr: COIL_RELAY_BASE, value: false },
                entry,
            )
        },
        (RelayStep::AllOffWritten(i), ClientEvent::Written(_)) => if i + 1 < n {
            (
                RelayStep::AllOffWritten((i + 1) as u16),
                ClientAction::WriteCoil { addr: (COIL_RELAY_BASE + i + 1) as u16, value: false },
                Seq::empty(),
            )
        } else {
            (RelayStep::AllOffPaused, ClientAction::Pause { ms: 300 }, Seq::empty())
        },
        (RelayStep::AllOffPaused, ClientEvent::Paused) => (
            RelayStep::CleanupRead,
            ClientAction::ReadCoils { addr: COIL_RELAY_BASE, count: n },
            Seq::empty(),
        ),
        (RelayStep::CleanupRead, ClientEvent::Bits(r)) => {
            let entry = match r {
                Ok(bits) => one(
                    "HR-07"@,
                    "All "@ + spec_decimal(n as nat) + " relays OFF after cleanup"@,
                    spec_first_all(bits@, n as int, false),
                    "coils="@ + spec_bits_text(bits@),
                ),
                Err(e) => one("HR-07"@, "Cleanup read-back"@, false, e@),
            };
            (RelayStep::Finished, ClientAction::Done, entry)
        },
        _ => end,
    }
}

fn bool_text(b: bool) -> (s: &'static str)
    ensures
        s@ == spec_bool_text(b),
{
    if b {
        "true"
    } else {
        "false"
    }
}

/// `prefix`, the decimal text of `n`, then `suffix`.
fn counted(prefix: &str, n: u16, suffix: &str) -> (s: String)
    ensures
        s@ == prefix@ + spec_decimal(n as nat) + suffix@,
{
    let mut s = labelled_number(prefix, n as u64);
    s.append(suffix);
    s
}

/// One step of the relay-write test (see [`spec_relay_writes_step`]).
pub fn relay_writes_step(cfg: &ScenarioConfig, step: RelayStep, event: ClientEvent) -> (r: (
    RelayStep,
    ClientAction,
    Vec<CheckEntry>,
))
    ensures
        r.0 == spec_relay_writes_step(*cfg, step, event).0,
        r.1 == spec_relay_writes_step(*cfg, step, event).1,
        checks_view(r.2@) == spec_relay_writes_step(*cfg, step, event).2,
{
    let n = cfg.relay_count;
    let mut out: Vec<CheckEntry> = Vec::new();
    let ghost sp = spec_relay_writes_step(*cfg, step, event);
    let (next, action) = match (step, event) {
        (RelayStep::Start, ClientEvent::Started) => {
            if n == 0 {
                (RelayStep::Finished, ClientAction::Done)
            } else {
                (RelayStep::OnWritten, ClientAction::WriteCoil { addr: COIL_RELAY_BASE, value: true })
            }
        },
        (RelayStep::OnWritten, ClientEvent::Written(r)) => match r {
            Ok(()) => {
                out.push(check("HR-01", "Write relay 1 ON (coil 0)", true, String::from_str("")));
                (RelayStep::OnPaused, ClientAction::Pause { ms: 200 })
            },
            Err(e) => {
                out.push(check("HR-01", "Write relay 1 ON", false, e));
                (RelayStep::Finished, ClientAction::Done)
            },
        },
        (RelayStep::OnPaused, ClientEvent::Paused) => {
            (RelayStep::OnRead, ClientAction::ReadCoils { addr: COIL_RELAY_BASE, count: 1 })
        },
        (RelayStep::OnRead, ClientEvent::Bits(r)) => {
            match r {
                Ok(bits) => {
                    let on = bits.len() > 0 && bits[0];
                    out.push(check("HR-02", "Read back relay 1 = ON", on, labelled("coil[0]=", bool_text(on))));
                },
                Err(e) => {
                    out.push(check("HR-02", "Read back relay 1", false, e));
                },
            }
            if cfg.relay_readback {
                (RelayStep::ReadbackPaused, ClientAction::Pause { ms: 1200 })
            } else {
                (RelayStep::OffWritten, ClientAction::WriteCoil { addr: COIL_RELAY_BASE, value: false })
            }
        },
        (RelayStep::ReadbackPaused, ClientEvent::Paused) => {
            (
                RelayStep::ReadbackRead,
                ClientAction::ReadRegisters {
                    unit: cfg.readback_unit_id(),
                    addr: HR_RELAY_READBACK,
                    count: 1,
                },
            )
        },
        (RelayStep::ReadbackRead, ClientEvent::Registers(r)) => {
            match r {
                Ok(regs) => {
                    let v: u16 = if regs.len() > 0 {
                        regs[0]
                    } else {
                        0
                    };
                    let mut d = String::from_str("HR24=0x");
                    push_hex4(&mut d, v);
                    out.push(check("HR-03", "HR 24 read-back shows relay 1 ON", relay1_on(v), d));
                },
                Err(e) => {
                    out.push(check("HR-03", "HR 24 read-back", false, e));
                },
            }
            (RelayStep::OffWritten, ClientAction::WriteCoil { addr: COIL_RELAY_BASE, value: false })
        },
        (RelayStep::OffWritten, ClientEvent::Written(r)) => {
            match r {
                Ok(()) => {
                    out.push(check("HR-04", "Write relay 1 OFF", true, String::from_str("")));
                },
                Err(e) => {
                    out.push(check("HR-04", "Write relay 1 OFF", false, e));
                },
            }
            (RelayStep::OffPaused, ClientAction::Pause { ms: 200 })
        },
        (RelayStep::OffPaused, ClientEvent::Paused) => {
            (RelayStep::AllOnWritten(0), ClientAction::WriteCoil { addr: COIL_RELAY_BASE, value: true })
        },
        (RelayStep::AllOnWritten(i), ClientEvent::Written(r)) => {
            let ok = r.is_ok();
            if ok && (i as u32) + 1 < n as u32 {
                (
                    RelayStep::AllOnWritten(i + 1),
                    ClientAction::WriteCoil { addr: COIL_RELAY_BASE + i + 1, value: true },
                )
            } else {
                let e = CheckEntry {
                    id: String::from_str("HR-05"),
                    desc: counted("Toggle all ", n, " relays ON"),
                    passed: ok,
                    detail: String::from_str(""),
                };
                out.push(e);
                (RelayStep::AllOnPaused, ClientAction::Pause { ms: 300 })
            }
        },
        (RelayStep::AllOnPaused, ClientEvent::Paused) => {
            (RelayStep::AllRead, ClientAction::ReadCoils { addr: COIL_RELAY_BASE, count: n })
        },
        (RelayStep::AllRead, ClientEvent::Bits(r)) => {
            match r {
                Ok(bits) => {
                    let e = CheckEntry {
                        id: String::from_str("HR-06"),
                        desc: counted("All ", n, " relay coils read back ON"),
                        passed: first_all(bits.as_slice(), n as usize, true),
                        detail: labelled("coils=", bits_text(bits.as_slice()).as_str()),
                    };
                    out.push(e);
                },
                Err(e) => {
                    out.push(check("HR-06", "Read back all relays", false, e));
                },
            }
            (RelayStep::AllOffWritten(0), ClientAction::WriteCoil { addr: COIL_RELAY_BASE, value: false })
        },
        (RelayStep::AllOffWritten(i), ClientEvent::Written(_)) => {
            if (i as u32) + 1 < n as u32 {
                (
                    RelayStep::AllOffWritten(i + 1),
                    ClientAction::WriteCoil { addr: COIL_RELAY_BASE + i + 1, value: false },
                )
            } else {
                (RelayStep::AllOffPaused, ClientAction::Pause { ms: 300 })
            }
        },
        (RelayStep::AllOffPaused, ClientEvent::Paused) => {
            (RelayStep::CleanupRead, ClientAction::ReadCoils { addr: COIL_RELAY_BASE, count: n })
        },
        (RelayStep::CleanupRead, ClientEvent::Bits(r)) => {
            match r {
                Ok(bits) => {
                    let e = CheckEntry {
                        id: String::from_str("HR-07"),
                        desc: counted("All ", n, " relays OFF after cleanup"),
                        passed: first_all(bits.as_slice(), n as usize, false),
                        detail: labelled("coils=", bits_text(bits.as_slice()).as_str()),
                    };
                    out.push(e);
                },
                Err(e) => {
                    out.push(check("HR-07", "Cleanup read-back", false, e));
                },
            }
            (RelayStep::Finished, ClientAction::Done)
        },
        _ => (RelayStep::Finished, ClientAction::Done),
    };
    proof {
        assert(checks_view(out@) =~= sp.2);
    }
    (next, action, out)
}


// ── Analog inputs ────────────────────────────────────────────────────

/// Where the analog-input test stands: the outcome it waits for.
pub enum AnalogStep {
    Start,
    /// The 4-20 mA inputs read.
    MaRead,
    /// The pause after the first 4-20 mA read, which it keeps.
    MaPaused(Vec<u16>),
    /// The second 4-20 mA read, the first kept.
    MaReread(Vec<u16>),
    /// The 0-10 V inputs read.
    VoltRead,
    /// The PSU voltage read.
    PsuRead,
    /// The opto inputs read.
    OptoRead,
    Finished,
}

/// A register value in hundredths, shown with two decimals.
pub open spec fn spec_hundredths(v: u16) -> Seq<char> {
    spec_decimal((v / 100) as nat) + "."@ + spec_decimal(((v % 100) / 10) as nat) + spec_decimal(
        (v % 10) as nat,
    )
}

/// Register values in hundredths, shown with two decimals and separated
/// by commas.
pub open spec fn spec_hundredths_list(regs: Seq<u16>) -> Seq<char> {
    spec_join(regs.map_values(|v: u16| spec_hundredths(v)), ", "@)
}

/// The largest difference between the first `n` registers of two reads.
pub open spec fn spec_max_drift(a: Seq<u16>, b: Seq<u16>, n: nat) -> u16
    decreases n,
{
    if n == 0 {
        0
    } else {
        let m = spec_max_drift(a, b, (n - 1) as nat);
        let x = a[n - 1];
        let y = b[n - 1];
        let d = (if x >= y {
            x - y
        } else {
            y - x
        }) as u16;
        if d > m {
            d
        } else {
            m
        }
    }
}

/// The number of registers both reads returned.
pub open spec fn spec_common(a: Seq<u16>, b: Seq<u16>) -> nat {
    if a.len() < b.len() {
        a.len()
    } else {
        b.len()
    }
}

/// After the 4-20 mA inputs: the 0-10 V inputs when there are any, else
/// the PSU voltage.
pub open spec fn spec_after_ma(cfg: ScenarioConfig) -> (AnalogStep, ClientAction) {
    if cfg.v_in_channels > 0 {
        (
            AnalogStep::VoltRead,
            ClientAction::ReadRegisters { unit: None, addr: HR_VOLT_IN_BASE, count: cfg.v_in_channels },
        )
    } else {
        (AnalogStep::PsuRead, ClientAction::ReadRegisters { unit: None, addr: HR_PSU_VOLTAGE, count: 1 })
    }
}

/// After the PSU voltage: the opto inputs when there are any, else the
/// end.
pub open spec fn spec_after_psu(cfg: ScenarioConfig) -> (AnalogStep, ClientAction) {
    if cfg.opto_channels > 0 {
        (
            AnalogStep::OptoRead,
            ClientAction::ReadInputs { addr: DI_OPTO_BASE, count: cfg.opto_channels },
        )
    } else {
        (AnalogStep::Finished, ClientAction::Done)
    }
}

/// One step of the analog-input test: read the 4-20 mA inputs (when there
/// are any), judge that one is above zero, pause 300 ms, read them again
/// and judge the drift (below 0.5 mA on every channel); read the 0-10 V
/// inputs (when there are any); read the PSU voltage and judge it in the
/// 3-30 V range; read the opto inputs (when there are any).  Registers
/// are shown in hundredths with two decimals.  An outcome the step does
/// not wait for ends the test.
pub open spec fn spec_analog_inputs_step(cfg: ScenarioConfig, step: AnalogStep, event: ClientEvent) -> (
    AnalogStep,
    ClientAction,
    Seq<CheckView>,
) {
    let ma_n = cfg.ma_in_channels;
    let end = (AnalogStep::Finished, ClientAction::Done, Seq::<CheckView>::empty());
    match (step, event) {
        (AnalogStep::Start, ClientEvent::Started) => if ma_n > 0 {
            (
                AnalogStep::MaRead,
                ClientAction::ReadRegisters { unit: None, addr: HR_MA_IN_BASE, count: ma_n },
                Seq::empty(),
            )
        } else {
            (spec_after_ma(cfg).0, spec_after_ma(cfg).1, Seq::empty())
        },
        (AnalogStep::MaRead, ClientEvent::Registers(r)) => match r {
            Ok(regs) => {
                let any = exists|i: int| 0 <= i < regs@.len() && #[trigger] regs@[i] > 0;
                (
                    AnalogStep::MaPaused(regs),
                    ClientAction::Pause { ms: 300 },
                    one(
                        "HA-01"@,
                        "Read "@ + spec_decimal(ma_n as nat) + " mA input registers"@,
                        true,
                        "mA=["@ + spec_hundredths_list(regs@) + "]"@,
                    ) + one(
                        "HA-02"@,
                        "At least one 4-20 mA channel > 0"@,
                        any,
                        if any {
                            ""@
                        } else {
                            "all zero"@
                        },
                    ),
                )
            },
            Err(e) => (
                spec_after_ma(cfg).0,
                spec_after_ma(cfg).1,
                one("HA-01"@, "Read mA input registers"@, false, e@),
            ),
        },
        (AnalogStep::MaPaused(first), ClientEvent::Paused) => (
            AnalogStep::MaReread(first),
            ClientAction::ReadRegisters { unit: None, addr: HR_MA_IN_BASE, count: ma_n },
            Seq::empty(),
        ),
        (AnalogStep::MaReread(first), ClientEvent::Registers(r)) => match r {
            Ok(second) => (
                spec_after_ma(cfg).0,
                spec_after_ma(cfg).1,
                one(
                    "HA-06"@,
                    "Successive mA reads stable (drift < 0.5)"@,
                    forall|i: int|
                        0 <= i < first@.len() && i < second@.len() ==> -50 < #[trigger] first@[i]
                            - second@[i] < 50,
                    "max_drift="@ + spec_hundredths(
                        spec_max_drift(first@, second@, spec_common(first@, second@)),
                    ) + " mA"@,
                ),
            ),
            Err(_) => (spec_after_ma(cfg).0, spec_after_ma(cfg).1, Seq::empty()),
        },
        (AnalogStep::VoltRead, ClientEvent::Registers(r)) => {
            let entry = match r {
                Ok(regs) => one(
                    "HA-03"@,
                    "Read "@ + spec_decimal(cfg.v_in_channels as nat) + " voltage input registers"@,
                    true,
                    "V=["@ + spec_hundredths_list(regs@) + "]"@,
                ),
                Err(e) => one("HA-03"@, "Read V input registers"@, false, e@),
            };
            (
                AnalogStep::PsuRead,
                ClientAction::ReadRegisters { unit: None, addr: HR_PSU_VOLTAGE, count: 1 },
                entry,
            )
        },
        (AnalogStep::PsuRead, ClientEvent::Registers(r)) => {
            let entry = match r {
                Ok(regs) => {
                    let v = spec_first_register(regs@);
                    one(
                        "HA-04"@,
                        "PSU voltage 3-30 V range"@,
                        300 <= v && v < 3000,
                        "psu="@ + spec_hundredths(v) + " V"@,
                    )
                },
                Err(e) => one("HA-04"@, "Read PSU voltage"@, false, e@),
            };
            (spec_after_psu(cfg).0, spec_after_psu(cfg).1, entry)
        },
        (AnalogStep::OptoRead, ClientEvent::Bits(r)) => {
            let entry = match r {
                Ok(bits) => one(
                    "HA-05"@,
                    "Read "@ + spec_decimal(cfg.opto_channels as nat) + " opto discrete inputs"@,
                    true,
                    "opto="@ + spec_bits_text(bits@),
                ),
                Err(e) => one("HA-05"@, "Read opto inputs"@, false, e@),
            };
            (AnalogStep::Finished, ClientAction::Done, entry)
        },
        _ => end,
    }
}

/// A register value in hundredths, with two decimals.
fn hundredths(v: u16) -> (s: String)
    ensures
        s@ == spec_hundredths(v),
{
    let mut s = String::new();
    push_decimal(&mut s, (v / 100) as u64);
    s.append(".");
    push_decimal(&mut s, ((v % 100) / 10) as u64);
    push_decimal(&mut s, (v % 10) as u64);
    proof {
        assert(s@ =~= Seq::<char>::empty() + spec_decimal((v / 100) as nat) + "."@ + spec_decimal(
            ((v % 100) / 10) as nat,
        ) + spec_decimal((v % 10) as nat));
    }
    s
}

/// Register values in hundredths, with two decimals, comma-separated.
fn hundredths_list(regs: &[u16]) -> (s: String)
    ensures
        s@ == spec_hundredths_list(regs@),
{
    let mut parts: Vec<String> = Vec::new();
    let mut i: usize = 0;
    while i < regs.len()
        invariant
            i <= regs@.len(),
            parts@.len() == i,
            strings_view(parts@) == regs@.subrange(0, i as int).map_values(
                |v: u16| spec_hundredths(v),
            ),
        decreases regs@.len() - i,
    {
        let ghost prev = parts@;
        parts.push(hundredths(regs[i]));
        proof {
            let want = regs@.subrange(0, i + 1).map_values(|v: u16| spec_hundredths(v));
            assert forall|k: int| 0 <= k < i + 1 implies #[trigger] strings_view(parts@)[k]
                == want[k] by {
                if k < i {
                    assert(parts@[k] == prev[k]);
                    assert(strings_view(prev)[k] == regs@.subrange(0, i as int).map_values(
                        |v: u16| spec_hundredths(v),
                    )[k]);
                }
            }
            assert(strings_view(parts@) =~= want);
        }
        i += 1;
    }
    proof {
        assert(regs@.subrange(0, regs@.len() as int) =~= regs@);
    }
    join(parts.as_slice(), ", ")
}

/// The largest difference between the registers both reads returned.
fn max_drift(a: &[u16], b: &[u16]) -> (m: u16)
    ensures
        m == spec_max_drift(a@, b@, spec_common(a@, b@)),
{
    let n = if a.len() < b.len() {
        a.len()
    } else {
        b.len()
    };
    let mut m: u16 = 0;
    let mut i: usize = 0;
    while i < n
        invariant
            n == spec_common(a@, b@),
            i <= n,
            m == spec_max_drift(a@, b@, i as nat),
        decreases n - i,
    {
        let x = a[i];
        let y = b[i];
        let d = if x >= y {
            x - y
        } else {
            y - x
        };
        if d > m {
            m = d;
        }
        i += 1;
    }
    m
}

/// `prefix`, the register values in hundredths, then `suffix`.
fn hundredths_text(prefix: &str, regs: &[u16], suffix: &str) -> (s: String)
    ensures
        s@ == prefix@ + spec_hundredths_list(regs@) + suffix@,
{
    let mut s = String::from_str(prefix);
    s.append(hundredths_list(regs).as_str());
    s.append(suffix);
    s
}

/// One step of the analog-input test (see [`spec_analog_inputs_step`]).
pub fn analog_inputs_step(cfg: &ScenarioConfig, step: AnalogStep, event: ClientEvent) -> (r: (
    AnalogStep,
    ClientAction,
    Vec<CheckEntry>,
))
    ensures
        r.0 == spec_analog_inputs_step(*cfg, step, event).0,
        r.1 == spec_analog_inputs_step(*cfg, step, event).1,
        checks_view(r.2@) == spec_analog_inputs_step(*cfg, step, event).2,
{
    let ma_n = cfg.ma_in_channels;
    let mut out: Vec<CheckEntry> = Vec::new();
    let ghost sp = spec_analog_inputs_step(*cfg, step, event);
    let after_ma = if cfg.v_in_channels > 0 {
        (
            AnalogStep::VoltRead,
            ClientAction::ReadRegisters { unit: None, addr: HR_VOLT_IN_BASE, count: cfg.v_in_channels },
        )
    } else {
        (AnalogStep::PsuRead, ClientAction::ReadRegisters { unit: None, addr: HR_PSU_VOLTAGE, count: 1 })
    };
    let (next, action) = match (step, event) {
        (AnalogStep::Start, ClientEvent::Started) => {
            if ma_n > 0 {
                (
                    AnalogStep::MaRead,
                    ClientAction::ReadRegisters { unit: None, addr: HR_MA_IN_BASE, count: ma_n },
                )
            } else {
                after_ma
            }
        },
        (AnalogStep::MaRead, ClientEvent::Registers(r)) => match r {
            Ok(regs) => {
                out.push(
                    CheckEntry {
                        id: String::from_str("HA-01"),
                        desc: counted("Read ", ma_n, " mA input registers"),
                        passed: true,
                        detail: hundredths_text("mA=[", regs.as_slice(), "]"),
                    },
                );
                let any = any_nonzero(regs.as_slice());
                out.push(
                    check(
                        "HA-02",
                        "At least one 4-20 mA channel > 0",
                        any,
                        String::from_str(
                            if any {
                                ""
                            } else {
                                "all zero"
                            },
                        ),
                    ),
                );
                (AnalogStep::MaPaused(regs), ClientAction::Pause { ms: 300 })
            },
            Err(e) => {
                out.push(check("HA-01", "Read mA input registers", false, e));
                after_ma
            },
        },
        (AnalogStep::MaPaused(first), ClientEvent::Paused) => {
            (
                AnalogStep::MaReread(first),
                ClientAction::ReadRegisters { unit: None, addr: HR_MA_IN_BASE, count: ma_n },
            )
        },
        (AnalogStep::MaReread(first), ClientEvent::Registers(r)) => {
            match r {
                Ok(second) => {
                    let ok = drift_ok(first.as_slice(), second.as_slice());
                    let mut d = String::from_str("max_drift=");
                    d.append(hundredths(max_drift(first.as_slice(), second.as_slice())).as_str());
                    d.append(" mA");
                    out.push(check("HA-06", "Successive mA reads stable (drift < 0.5)", ok, d));
                },
                Err(_) => {},
            }
            after_ma
        },
        (AnalogStep::VoltRead, ClientEvent::Registers(r)) => {
            match r {
                Ok(regs) => {
                    out.push(
                        CheckEntry {
                            id: String::from_str("HA-03"),
                            desc: counted("Read ", cfg.v_in_channels, " voltage input registers"),
                            passed: true,
                            detail: hundredths_text("V=[", regs.as_slice(), "]"),
                        },
                    );
                },
                Err(e) => {
                    out.push(check("HA-03", "Read V input registers", false, e));
                },
            }
            (AnalogStep::PsuRead, ClientAction::ReadRegisters { unit: None, addr: HR_PSU_VOLTAGE, count: 1 })
        },
        (AnalogStep::PsuRead, ClientEvent::Registers(r)) => {
            match r {
                Ok(regs) => {
                    let v: u16 = if regs.len() > 0 {
                        regs[0]
                    } else {
                        0
                    };
                    let mut d = String::from_str("psu=");
                    d.append(hundredths(v).as_str());
                    d.append(" V");
                    out.push(check("HA-04", "PSU voltage 3-30 V range", psu_in_range(v), d));
                },
                Err(e) => {
                    out.push(check("HA-04", "Read PSU voltage", false, e));
                },
            }
            if cfg.opto_channels > 0 {
                (AnalogStep::OptoRead, ClientAction::ReadInputs { addr: DI_OPTO_BASE, count: cfg.opto_channels })
            } else {
                (AnalogStep::Finished, ClientAction::Done)
            }
        },
        (AnalogStep::OptoRead, ClientEvent::Bits(r)) => {
            match r {
                Ok(bits) => {
                    out.push(
                        CheckEntry {
                            id: String::from_str("HA-05"),
                            desc: counted("Read ", cfg.opto_channels, " opto discrete inputs"),
                            passed: true,
                            detail: labelled("opto=", bits_text(bits.as_slice()).as_str()),
                        },
                    );
                },
                Err(e) => {
                    out.push(check("HA-05", "Read opto inputs", false, e));
                },
            }
            (AnalogStep::Finished, ClientAction::Done)
        },
        _ => (AnalogStep::Finished, ClientAction::Done),
    };
    proof {
        assert(checks_view(out@) =~= sp.2);
    }
    (next, action, out)
}


// ── Open-drain outputs ───────────────────────────────────────────────

/// Where the open-drain test stands: the outcome it waits for.
#[derive(Debug, Clone, Copy, PartialEq, Eq, Structural)]
pub enum OdStep {
    Start,
    /// Output 1 switched on.
    OnWritten,
    OnPaused,
    /// Output 1 read back.
    OnRead,
    /// Output `i + 1` switched on; whether every switch so far succeeded.
    AllOnWritten(u16, bool),
    AllOnPaused,
    /// Output `i + 1` switched off.
    AllOffWritten(u16),
    AllOffPaused,
    /// All outputs read back after the cleanup.
    CleanupRead,
    Finished,
}

/// The first open-drain coil of a scenario: 16 in single-slave mode, 0 on
/// the Industrial slave otherwise.
pub open spec fn spec_od_base(cfg: ScenarioConfig) -> u16 {
    if cfg.single_slave {
        COIL_OD_BASE
    } else {
        0
    }
}

/// One step of the open-drain test over `cfg.od_channels` outputs: switch
/// output 1 on (stop if that fails), read it back, switch every output on
/// (all of them, noting any failure), switch them all off and read them
/// back.  Pauses of 200 ms follow the writes.  An outcome the step does
/// not wait for ends the test.
pub open spec fn spec_od_outputs_step(cfg: ScenarioConfig, step: OdStep, event: ClientEvent) -> (
    OdStep,
    ClientAction,
    Seq<CheckView>,
) {
    let n = cfg.od_channels;
    let base = spec_od_base(cfg);
    let end = (OdStep::Finished, ClientAction::Done, Seq::<CheckView>::empty());
    match (step, event) {
        (OdStep::Start, ClientEvent::Started) => if n == 0 {
            end
        } else {
            (OdStep::OnWritten, ClientAction::WriteCoil { addr: base, value: true }, Seq::empty())
        },
        (OdStep::OnWritten, ClientEvent::Written(r)) => match r {
            Ok(_) => (
                OdStep::OnPaused,
                ClientAction::Pause { ms: 200 },
                one("HO-01"@, "Write OD output 1 ON"@, true, ""@),
            ),
            Err(e) => (OdStep::Finished, ClientAction::Done, one("HO-01"@, "Write OD output 1 ON"@, false, e@)),
        },
        (OdStep::OnPaused, ClientEvent::Paused) => (
            OdStep::OnRead,
            ClientAction::ReadCoils { addr: base, count: 1 },
            Seq::empty(),
        ),
        (OdStep::OnRead, ClientEvent::Bits(r)) => {
            let entry = match r {
                Ok(bits) => one(
                    "HO-02"@,
                    "OD output 1 reads back ON"@,
                    spec_first_bit(bits@),
                    "coil["@ + spec_decimal(base as nat) + "]="@ + spec_bool_text(spec_first_bit(bits@)),
                ),
                Err(e) => one("HO-02"@, "OD read back"@, false, e@),
            };
            (OdStep::AllOnWritten(0, true), ClientAction::WriteCoil { addr: base, value: true }, entry)
        },
        (OdStep::AllOnWritten(i, ok), ClientEvent::Written(r)) => {
            let ok2 = ok && r is Ok;
            if i + 1 < n {
                (
                    OdStep::AllOnWritten((i + 1) as u16, ok2),
                    ClientAction::WriteCoil { addr: (base + i + 1) as u16, value: true },
                    Seq::empty(),
                )
            } else {
                (
                    OdStep::AllOnPaused,
                    ClientAction::Pause { ms: 200 },
                    one(
                        "HO-03"@,
                        "Toggle all "@ + spec_decimal(n as nat) + " OD outputs ON"@,
                        ok2,
                        ""@,
                    ),
                )
            }
        },
        (OdStep::AllOnPaused, ClientEvent::Paused) => (
            OdStep::AllOffWritten(0),
            ClientAction::WriteCoil { addr: base, value: false },
            Seq::empty(),
        ),
        (OdStep::AllOffWritten(i), ClientEvent::Written(_)) => if i + 1 < n {
            (
                OdStep::AllOffWritten((i + 1) as u16),
                ClientAction::WriteCoil { addr: (base + i + 1) as u16, value: false },
                Seq::empty(),
            )
        } else {
            (OdStep::AllOffPaused, ClientAction::Pause { ms: 200 }, Seq::empty())
        },
        (OdStep::AllOffPaused, ClientEvent::Paused) => (
            OdStep::CleanupRead,
            ClientAction::ReadCoils { addr: base, count: n },
            Seq::empty(),
        ),
        (OdStep::CleanupRead, ClientEvent::Bits(r)) => {
            let entry = match r {
                Ok(bits) => one(
                    "HO-04"@,
                    "All "@ + spec_decimal(n as nat) + " OD outputs OFF after cleanup"@,
                    spec_first_all(bits@, n as int, false),
                    ""@,
                ),
                Err(e) => one("HO-04"@, "OD cleanup read-back"@, false, e@),
            };
            (OdStep::Finished, ClientAction::Done, entry)
        },
        _ => end,
    }
}

/// One step of the open-drain test (see [`spec_od_outputs_step`]); the
/// outputs' coils must fit below 65536.
pub fn od_outputs_step(cfg: &ScenarioConfig, step: OdStep, event: ClientEvent) -> (r: (
    OdStep,
    ClientAction,
    Vec<CheckEntry>,
))
    requires
        spec_od_base(*cfg) + cfg.od_channels <= 0x1_0000,
    ensures
        r.0 == spec_od_outputs_step(*cfg, step, event).0,
        r.1 == spec_od_outputs_step(*cfg, step, event).1,
        checks_view(r.2@) == spec_od_outputs_step(*cfg, step, event).2,
{
    let n = cfg.od_channels;
    let base = cfg.od_coil_base();
    let mut out: Vec<CheckEntry> = Vec::new();
    let ghost sp = spec_od_outputs_step(*cfg, step, event);
    let (next, action) = match (step, event) {
        (OdStep::Start, ClientEvent::Started) => {
            if n == 0 {
                (OdStep::Finished, ClientAction::Done)
            } else {
                (OdStep::OnWritten, ClientAction::WriteCoil { addr: base, value: true })
            }
        },
        (OdStep::OnWritten, ClientEvent::Written(r)) => match r {
            Ok(()) => {
                out.push(check("HO-01", "Write OD output 1 ON", true, String::from_str("")));
                (OdStep::OnPaused, ClientAction::Pause { ms: 200 })
            },
            Err(e) => {
                out.push(check("HO-01", "Write OD output 1 ON", false, e));
                (OdStep::Finished, ClientAction::Done)
            },
        },
        (OdStep::OnPaused, ClientEvent::Paused) => {
            (OdStep::OnRead, ClientAction::ReadCoils { addr: base, count: 1 })
        },
        (OdStep::OnRead, ClientEvent::Bits(r)) => {
            match r {
                Ok(bits) => {
                    let on = bits.len() > 0 && bits[0];
                    let mut d = labelled_number("coil[", base as u64);
                    d.append("]=");
                    d.append(bool_text(on));
                    out.push(check("HO-02", "OD output 1 reads back ON", on, d));
                },
                Err(e) => {
                    out.push(check("HO-02", "OD read back", false, e));
                },
            }
            (OdStep::AllOnWritten(0, true), ClientAction::WriteCoil { addr: base, value: true })
        },
        (OdStep::AllOnWritten(i, ok), ClientEvent::Written(r)) => {
            let ok2 = ok && r.is_ok();
            if (i as u32) + 1 < n as u32 {
                (
                    OdStep::AllOnWritten(i + 1, ok2),
                    ClientAction::WriteCoil { addr: base + i + 1, value: true },
                )
            } else {
                let e = CheckEntry {
                    id: String::from_str("HO-03"),
                    desc: counted("Toggle all ", n, " OD outputs ON"),
                    passed: ok2,
                    detail: String::from_str(""),
                };
                out.push(e);
                (OdStep::AllOnPaused, ClientAction::Pause { ms: 200 })
            }
        },
        (OdStep::AllOnPaused, ClientEvent::Paused) => {
            (OdStep::AllOffWritten(0), ClientAction::WriteCoil { addr: base, value: false })
        },
        (OdStep::AllOffWritten(i), ClientEvent::Written(_)) => {
            if (i as u32) + 1 < n as u32 {
                (OdStep::AllOffWritten(i + 1), ClientAction::WriteCoil { addr: base + i + 1, value: false })
            } else {
                (OdStep::AllOffPaused, ClientAction::Pause { ms: 200 })
            }
        },
        (OdStep::AllOffPaused, ClientEvent::Paused) => {
            (OdStep::CleanupRead, ClientAction::ReadCoils { addr: base, count: n })
        },
        (OdStep::CleanupRead, ClientEvent::Bits(r)) => {
            match r {
                Ok(bits) => {
                    let e = CheckEntry {
                        id: String::from_str("HO-04"),
                        desc: counted("All ", n, " OD outputs OFF after cleanup"),
                        passed: first_all(bits.as_slice(), n as usize, false),
                        detail: String::from_str(""),
                    };
                    out.push(e);
                },
                Err(e) => {
                    out.push(check("HO-04", "OD cleanup read-back", false, e));
                },
            }
            (OdStep::Finished, ClientAction::Done)
        },
        _ => (OdStep::Finished, ClientAction::Done),
    };
    proof {
        assert(checks_view(out@) =~= sp.2);
    }
    (next, action, out)
}

// ── Analog outputs ───────────────────────────────────────────────────

/// Where the analog-output test stands: the outcome it waits for.
#[derive(Debug, Clone, Copy, PartialEq, Eq, Structural)]
pub enum AoStep {
    Start,
    /// 0-10 V output 1 set to 5.00 V.
    VoltWritten,
    VoltPaused,
    /// 0-10 V output 1 read back.
    VoltRead,
    /// 0-10 V output 1 reset to 0.
    VoltResetWritten,
    VoltResetPaused,
    /// 0-10 V output 1 read back after the reset.
    VoltResetRead,
    /// 4-20 mA output 1 set to 12.00 mA.
    MaWritten,
    MaPaused,
    /// 4-20 mA output 1 read back.
    MaRead,
    /// 4-20 mA output 1 reset to 0.
    MaResetWritten,
    MaResetPaused,
    /// 4-20 mA output 1 read back after the reset.
    MaResetRead,
    Finished,
}

/// Whether a read brought at least one value and its first is `v`.
pub open spec fn spec_first_is(regs: Seq<u16>, v: u16) -> bool {
    regs.len() > 0 && regs[0] == v
}

/// The 4-20 mA part of the analog-output test when there are such
/// outputs, else the end.
pub open spec fn spec_ao_ma_start(cfg: ScenarioConfig) -> (AoStep, ClientAction) {
    if cfg.ma_out_channels > 0 {
        (AoStep::MaWritten, ClientAction::WriteRegister { addr: HR_MA_OUT_BASE, value: 1200 })
    } else {
        (AoStep::Finished, ClientAction::Done)
    }
}

/// One step of the analog-output test: with 0-10 V outputs, set output 1
/// to 500 (5.00 V), read it back, reset it to 0 and read it back; then,
/// with 4-20 mA outputs, the same with 1200 (12.00 mA).  Pauses of 200 ms
/// follow the writes.  An outcome the step does not wait for ends the
/// test.
pub open spec fn spec_analog_outputs_step(cfg: ScenarioConfig, step: AoStep, event: ClientEvent) -> (
    AoStep,
    ClientAction,
    Seq<CheckView>,
) {
    let end = (AoStep::Finished, ClientAction::Done, Seq::<CheckView>::empty());
    let ma = spec_ao_ma_start(cfg);
    match (step, event) {
        (AoStep::Start, ClientEvent::Started) => if cfg.v_out_channels > 0 {
            (
                AoStep::VoltWritten,
                ClientAction::WriteRegister { addr: HR_VOLT_OUT_BASE, value: 500 },
                Seq::empty(),
            )
        } else {
            (ma.0, ma.1, Seq::empty())
        },
        (AoStep::VoltWritten, ClientEvent::Written(r)) => {
            let entry = match r {
                Ok(_) => one("HAO-01"@, "Write 0-10 V output 1 = 5.00 V"@, true, ""@),
                Err(e) => one("HAO-01"@, "Write V output"@, false, e@),
            };
            (AoStep::VoltPaused, ClientAction::Pause { ms: 200 }, entry)
        },
        (AoStep::VoltPaused, ClientEvent::Paused) => (
            AoStep::VoltRead,
            ClientAction::ReadRegisters { unit: None, addr: HR_VOLT_OUT_BASE, count: 1 },
            Seq::empty(),
        ),
        (AoStep::VoltRead, ClientEvent::Registers(r)) => {
            let entry = match r {
                Ok(regs) => one(
                    "HAO-02"@,
                    "HR 16 reads back 500"@,
                    spec_first_is(regs@, 500),
                    "HR16="@ + spec_decimal(spec_first_register(regs@) as nat) + " ("@
                        + spec_hundredths(spec_first_register(regs@)) + " V)"@,
                ),
                Err(e) => one("HAO-02"@, "Read V output"@, false, e@),
            };
            (
                AoStep::VoltResetWritten,
                ClientAction::WriteRegister { addr: HR_VOLT_OUT_BASE, value: 0 },
                entry,
            )
        },
        (AoStep::VoltResetWritten, ClientEvent::Written(_)) => (
            AoStep::VoltResetPaused,
            ClientAction::Pause { ms: 200 },
            Seq::empty(),
        ),
        (AoStep::VoltResetPaused, ClientEvent::Paused) => (
            AoStep::VoltResetRead,
            ClientAction::ReadRegisters { unit: None, addr: HR_VOLT_OUT_BASE, count: 1 },
            Seq::empty(),
        ),
        (AoStep::VoltResetRead, ClientEvent::Registers(r)) => {
            let entry = match r {
                Ok(regs) => one("HAO-05"@, "V output reset to 0"@, spec_first_is(regs@, 0), ""@),
                Err(e) => one("HAO-05"@, "V output reset"@, false, e@),
            };
            (ma.0, ma.1, entry)
        },
        (AoStep::MaWritten, ClientEvent::Written(r)) => {
            let entry = match r {
                Ok(_) => one("HAO-03"@, "Write 4-20 mA output 1 = 12.00 mA"@, true, ""@),
                Err(e) => one("HAO-03"@, "Write mA output"@, false, e@),
            };
            (AoStep::MaPaused, ClientAction::Pause { ms: 200 }, entry)
        },
        (AoStep::MaPaused, ClientEvent::Paused) => (
            AoStep::MaRead,
            ClientAction::ReadRegisters { unit: None, addr: HR_MA_OUT_BASE, count: 1 },
            Seq::empty(),
        ),
        (AoStep::MaRead, ClientEvent::Registers(r)) => {
            let entry = match r {
                Ok(regs) => one(
                    "HAO-04"@,
                    "HR 20 reads back 1200"@,
                    spec_first_is(regs@, 1200),
                    "HR20="@ + spec_decimal(spec_first_register(regs@) as nat) + " ("@
                        + spec_hundredths(spec_first_register(regs@)) + " mA)"@,
                ),
                Err(e) => one("HAO-04"@, "Read mA output"@, false, e@),
            };
            (
                AoStep::MaResetWritten,
                ClientAction::WriteRegister { addr: HR_MA_OUT_BASE, value: 0 },
                entry,
            )
        },
        (AoStep::MaResetWritten, ClientEvent::Written(_)) => (
            AoStep::MaResetPaused,
            ClientAction::Pause { ms: 200 },
            Seq::empty(),
        ),
        (AoStep::MaResetPaused, ClientEvent::Paused) => (
            AoStep::MaResetRead,
            ClientAction::ReadRegisters { unit: None, addr: HR_MA_OUT_BASE, count: 1 },
            Seq::empty(),
        ),
        (AoStep::MaResetRead, ClientEvent::Registers(r)) => {
            let entry = match r {
                Ok(regs) => one("HAO-06"@, "mA output reset to 0"@, spec_first_is(regs@, 0), ""@),
                Err(e) => one("HAO-06"@, "mA output reset"@, false, e@),
            };
            (AoStep::Finished, ClientAction::Done, entry)
        },
        _ => end,
    }
}

/// `prefix`, the register value in decimal, ` (`, the value in
/// hundredths, then `unit` and `)`.
fn register_text(prefix: &str, v: u16, unit: &str) -> (s: String)
    ensures
        s@ == prefix@ + spec_decimal(v as nat) + " ("@ + spec_hundredths(v) + unit@,
{
    let mut s = labelled_number(prefix, v as u64);
    s.append(" (");
    s.append(hundredths(v).as_str());
    s.append(unit);
    s
}

fn first_register(regs: &Vec<u16>) -> (v: u16)
    ensures
        v == spec_first_register(regs@),
{
    if regs.len() > 0 {
        regs[0]
    } else {
        0
    }
}

/// One step of the analog-output test (see [`spec_analog_outputs_step`]).
pub fn analog_outputs_step(cfg: &ScenarioConfig, step: AoStep, event: ClientEvent) -> (r: (
    AoStep,
    ClientAction,
    Vec<CheckEntry>,
))
    ensures
        r.0 == spec_analog_outputs_step(*cfg, step, event).0,
        r.1 == spec_analog_outputs_step(*cfg, step, event).1,
        checks_view(r.2@) == spec_analog_outputs_step(*cfg, step, event).2,
{
    let mut out: Vec<CheckEntry> = Vec::new();
    let ghost sp = spec_analog_outputs_step(*cfg, step, event);
    let ma = if cfg.ma_out_channels > 0 {
        (AoStep::MaWritten, ClientAction::WriteRegister { addr: HR_MA_OUT_BASE, value: 1200 })
    } else {
        (AoStep::Finished, ClientAction::Done)
    };
    let (next, action) = match (step, event) {
        (AoStep::Start, ClientEvent::Started) => {
            if cfg.v_out_channels > 0 {
                (AoStep::VoltWritten, ClientAction::WriteRegister { addr: HR_VOLT_OUT_BASE, value: 500 })
            } else {
                ma
            }
        },
        (AoStep::VoltWritten, ClientEvent::Written(r)) => {
            match r {
                Ok(()) => out.push(check("HAO-01", "Write 0-10 V output 1 = 5.00 V", true, String::from_str(""))),
                Err(e) => out.push(check("HAO-01", "Write V output", false, e)),
            }
            (AoStep::VoltPaused, ClientAction::Pause { ms: 200 })
        },
        (AoStep::VoltPaused, ClientEvent::Paused) => {
            (AoStep::VoltRead, ClientAction::ReadRegisters { unit: None, addr: HR_VOLT_OUT_BASE, count: 1 })
        },
        (AoStep::VoltRead, ClientEvent::Registers(r)) => {
            match r {
                Ok(regs) => {
                    let v = first_register(&regs);
                    let passed = regs.len() > 0 && regs[0] == 500;
                    out.push(check("HAO-02", "HR 16 reads back 500", passed, register_text("HR16=", v, " V)")));
                },
                Err(e) => out.push(check("HAO-02", "Read V output", false, e)),
            }
            (AoStep::VoltResetWritten, ClientAction::WriteRegister { addr: HR_VOLT_OUT_BASE, value: 0 })
        },
        (AoStep::VoltResetWritten, ClientEvent::Written(_)) => {
            (AoStep::VoltResetPaused, ClientAction::Pause { ms: 200 })
        },
        (AoStep::VoltResetPaused, ClientEvent::Paused) => {
            (AoStep::VoltResetRead, ClientAction::ReadRegisters { unit: None, addr: HR_VOLT_OUT_BASE, count: 1 })
        },
        (AoStep::VoltResetRead, ClientEvent::Registers(r)) => {
            match r {
                Ok(regs) => {
                    let passed = regs.len() > 0 && regs[0] == 0;
                    out.push(check("HAO-05", "V output reset to 0", passed, String::from_str("")));
                },
                Err(e) => out.push(check("HAO-05", "V output reset", false, e)),
            }
            ma
        },
        (AoStep::MaWritten, ClientEvent::Written(r)) => {
            match r {
                Ok(()) => out.push(check("HAO-03", "Write 4-20 mA output 1 = 12.00 mA", true, String::from_str(""))),
                Err(e) => out.push(check("HAO-03", "Write mA output", false, e)),
            }
            (AoStep::MaPaused, ClientAction::Pause { ms: 200 })
        },
        (AoStep::MaPaused, ClientEvent::Paused) => {
            (AoStep::MaRead, ClientAction::ReadRegisters { unit: None, addr: HR_MA_OUT_BASE, count: 1 })
        },
        (AoStep::MaRead, ClientEvent::Registers(r)) => {
            match r {
                Ok(regs) => {
                    let v = first_register(&regs);
                    let passed = regs.len() > 0 && regs[0] == 1200;
                    out.push(check("HAO-04", "HR 20 reads back 1200", passed, register_text("HR20=", v, " mA)")));
                },
                Err(e) => out.push(check("HAO-04", "Read mA output", false, e)),
            }
            (AoStep::MaResetWritten, ClientAction::WriteRegister { addr: HR_MA_OUT_BASE, value: 0 })
        },
        (AoStep::MaResetWritten, ClientEvent::Written(_)) => {
            (AoStep::MaResetPaused, ClientAction::Pause { ms: 200 })
        },
        (AoStep::MaResetPaused, ClientEvent::Paused) => {
            (AoStep::MaResetRead, ClientAction::ReadRegisters { unit: None, addr: HR_MA_OUT_BASE, count: 1 })
        },
        (AoStep::MaResetRead, ClientEvent::Registers(r)) => {
            match r {
                Ok(regs) => {
                    let passed = regs.len() > 0 && regs[0] == 0;
                    out.push(check("HAO-06", "mA output reset to 0", passed, String::from_str("")));
                },
                Err(e) => out.push(check("HAO-06", "mA output reset", false, e)),
            }
            (AoStep::Finished, ClientAction::Done)
        },
        _ => (AoStep::Finished, ClientAction::Done),
    };
    proof {
        assert(checks_view(out@) =~= sp.2);
    }
    (next, action, out)
}

} // verus!
