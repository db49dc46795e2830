//! The validation runner's decisions: which test categories run, which
//! unit ID each client addresses, where the tested coils and registers
//! lie, and how readings are judged and shown.
//!
//! The runner itself (spawning the gateway, the TCP connections, the
//! pauses between writes and reads) is the application's part.
use vstd::prelude::*;
use vstd::string::StringExecFns;

use super::scenario::ScenarioConfig;
use crate::board_def::str_is;
use crate::cache::word_bit;
use crate::text::{push_char, push_decimal, spec_decimal};

verus! {

/// First 4-20 mA input register.
pub const HR_MA_IN_BASE: u16 = 0;
/// PSU voltage register.
pub const HR_PSU_VOLTAGE: u16 = 8;
/// First 0-10 V input register.
pub const HR_VOLT_IN_BASE: u16 = 10;
/// First 0-10 V output register.
pub const HR_VOLT_OUT_BASE: u16 = 16;
/// First 4-20 mA output register.
pub const HR_MA_OUT_BASE: u16 = 20;
/// Relay read-back register.
pub const HR_RELAY_READBACK: u16 = 24;
/// First relay coil.
pub const COIL_RELAY_BASE: u16 = 0;
/// First open-drain coil in single-slave mode.
pub const COIL_OD_BASE: u16 = 16;
/// First opto discrete input.
pub const DI_OPTO_BASE: u16 = 0;

/// The test categories a scenario runs.
#[derive(Debug, Clone, Copy, PartialEq, Eq, Structural)]
pub struct TestPlan {
    pub health: bool,
    pub analog_inputs: bool,
    pub relay_writes: bool,
    pub od_outputs: bool,
    pub analog_outputs: bool,
    pub stability: bool,
}

impl ScenarioConfig {
    /// The categories to run: each needs its switch, the inputs or outputs
    /// it exercises, and, for the writing categories, writes not to be
    /// skipped.
    pub fn test_plan(&self, skip_writes: bool) -> (p: TestPlan)
        ensures
            p.health == self.test_health,
            p.analog_inputs == (self.test_analog_inputs && (self.ma_in_channels > 0
                || self.v_in_channels > 0 || self.opto_channels > 0)),
            p.relay_writes == (self.test_relay_writes && self.relay_count > 0 && !skip_writes),
            p.od_outputs == (self.test_od_outputs && self.od_channels > 0 && !skip_writes),
            p.analog_outputs == (self.test_analog_outputs && (self.v_out_channels > 0
                || self.ma_out_channels > 0) && !skip_writes),
            p.stability == self.test_stability,
    {
        let has_analog = self.ma_in_channels > 0 || self.v_in_channels > 0 || self.opto_channels
            > 0;
        let has_aout = self.v_out_channels > 0 || self.ma_out_channels > 0;
        TestPlan {
            health: self.test_health,
            analog_inputs: self.test_analog_inputs && has_analog,
            relay_writes: self.test_relay_writes && self.relay_count > 0 && !skip_writes,
            od_outputs: self.test_od_outputs && self.od_channels > 0 && !skip_writes,
            analog_outputs: self.test_analog_outputs && has_aout && !skip_writes,
            stability: self.test_stability,
        }
    }

    /// The unit ID a client for the relay board (`relay`) or the
    /// Industrial board addresses: the relay slave ID in single-slave mode.
    pub fn client_unit_id(&self, relay: bool) -> (uid: u8)
        ensures
            uid == if self.single_slave || relay {
                self.relay_slave_id
            } else {
                self.ind_slave_id
            },
    {
        if self.single_slave {
            self.relay_slave_id
        } else if relay {
            self.relay_slave_id
        } else {
            self.ind_slave_id
        }
    }

    /// The unit ID to switch to for reading the relay read-back register:
    /// the Industrial slave in multi-slave mode with an Industrial board,
    /// none (stay) otherwise.
    pub open spec fn spec_readback_unit_id(&self) -> Option<u8> {
        if !self.single_slave && exists|i: int|
            0 <= i < self.boards@.len() && #[trigger] self.boards@[i]@ == "megaind"@ {
            Some(self.ind_slave_id)
        } else {
            None::<u8>
        }
    }

    /// The unit ID to switch to for reading the relay read-back register:
    /// the Industrial slave in multi-slave mode with an Industrial board,
    /// none (stay) otherwise.
    pub fn readback_unit_id(&self) -> (uid: Option<u8>)
        ensures
            uid == self.spec_readback_unit_id(),
    {
        if !self.single_slave && self.has_megaind() {
            Some(self.ind_slave_id)
        } else {
            None
        }
    }

    /// The first open-drain coil: 16 in single-slave mode, 0 on the
    /// Industrial slave otherwise.
    pub fn od_coil_base(&self) -> (base: u16)
        ensures
            base == if self.single_slave {
                COIL_OD_BASE
            } else {
                0
            },
    {
        if self.single_slave {
            COIL_OD_BASE
        } else {
            0
        }
    }
}

/// `1` for a set bit, `0` for a clear one.
pub open spec fn spec_bits_text(bits: Seq<bool>) -> Seq<char> {
    Seq::new(
        bits.len(),
        |i: int|
            if bits[i] {
                '1'
            } else {
                '0'
            },
    )
}

/// Bits as a string of `1` and `0`, first bit first.
pub fn bits_text(bits: &[bool]) -> (s: String)
    ensures
        s@ == spec_bits_text(bits@),
{
    let mut s = String::new();
    let mut i: usize = 0;
    while i < bits.len()
        invariant
            i <= bits@.len(),
            s@ == spec_bits_text(bits@.subrange(0, i as int)),
        decreases bits@.len() - i,
    {
        push_char(
            &mut s,
            if bits[i] {
                '1'
            } else {
                '0'
            },
        );
        i += 1;
        proof {
            assert(s@ =~= spec_bits_text(bits@.subrange(0, i as int)));
        }
    }
    proof {
        assert(bits@.subrange(0, bits@.len() as int) =~= bits@);
    }
    s
}

/// Whether the first `n` bits (or all, when there are fewer) equal
/// `value`.
pub open spec fn spec_first_all(bits: Seq<bool>, n: int, value: bool) -> bool {
    forall|i: int| 0 <= i < n && i < bits.len() ==> #[trigger] bits[i] == value
}

/// Whether the first `n` bits (or all, when there are fewer) equal
/// `value`.
pub fn first_all(bits: &[bool], n: usize, value: bool) -> (b: bool)
    ensures
        b == spec_first_all(bits@, n as int, value),
{
    let mut i: usize = 0;
    while i < n && i < bits.len()
        invariant
            i <= bits@.len(),
            forall|k: int| 0 <= k < i ==> #[trigger] bits@[k] == value,
        decreases bits@.len() - i,
    {
        if bits[i] != value {
            return false;
        }
        i += 1;
    }
    true
}

/// Whether a reported health status is acceptable: `ok` or `degraded`.
pub fn status_acceptable(status: &String) -> (b: bool)
    ensures
        b == (status@ == "ok"@ || status@ == "degraded"@),
{
    str_is(status, "ok") || str_is(status, "degraded")
}

/// Whether any register reads above zero.
pub fn any_nonzero(regs: &[u16]) -> (b: bool)
    ensures
        b == exists|i: int| 0 <= i < regs@.len() && #[trigger] regs@[i] > 0,
{
    let mut i: usize = 0;
    while i < regs.len()
        invariant
            i <= regs@.len(),
            forall|k: int| 0 <= k < i ==> #[trigger] regs@[k] == 0,
        decreases regs@.len() - i,
    {
        if regs[i] > 0 {
            return true;
        }
        i += 1;
    }
    false
}

/// I²C errors that appeared during a stability run, from the first and
/// the last sample's counters (a counter that went down wraps).
pub fn new_errors(start: u64, end: u64) -> (n: u64)
    ensures
        n == (end - start) % 0x1_0000_0000_0000_0000int,
{
    end.wrapping_sub(start)
}


/// Whether a PSU voltage register (centivolts) lies in the 3-30 V range.
pub fn psu_in_range(reg: u16) -> (b: bool)
    ensures
        b == (300 <= reg && reg < 3000),
{
    300 <= reg && reg < 3000
}

/// Whether two successive reads of the same registers (hundredths of a
/// unit) stayed within 0.5 units of each other, register by register
/// (over the registers both reads returned).
pub fn drift_ok(a: &[u16], b: &[u16]) -> (ok: bool)
    ensures
        ok == forall|i: int|
            0 <= i < a@.len() && i < b@.len() ==> -50 < #[trigger] a@[i] - b@[i] < 50,
{
    let mut i: usize = 0;
    while i < a.len() && i < b.len()
        invariant
            i <= a@.len(),
            forall|k: int| 0 <= k < i && k < b@.len() ==> -50 < #[trigger] a@[k] - b@[k] < 50,
        decreases a@.len() - i,
    {
        let x = a[i];
        let y = b[i];
        let far = if x >= y {
            x - y >= 50
        } else {
            y - x >= 50
        };
        if far {
            assert(!(-50 < a@[i as int] - b@[i as int] < 50));
            return false;
        }
        i += 1;
    }
    true
}

/// Whether relay 1 is on in a read-back bitmask (bit 0).
pub fn relay1_on(readback: u16) -> (b: bool)
    ensures
        b == word_bit(readback, 0),
{
    (readback >> 0u16) & 1u16 == 1u16
}

/// Abstract form of a [`CheckEntry`].
pub struct CheckView {
    pub id: Seq<char>,
    pub desc: Seq<char>,
    pub passed: bool,
    pub detail: Seq<char>,
}

/// One judged check, ready to be recorded: its ID, description, verdict
/// and detail text.
#[derive(Debug)]
pub struct CheckEntry {
    pub id: String,
    pub desc: String,
    pub passed: bool,
    pub detail: String,
}

impl View for CheckEntry {
    type V = CheckView;

    open spec fn view(&self) -> CheckView {
        CheckView { id: self.id@, desc: self.desc@, passed: self.passed, detail: self.detail@ }
    }
}

/// The views of a list of checks.
pub open spec fn checks_view(v: Seq<CheckEntry>) -> Seq<CheckView> {
    v.map_values(|e: CheckEntry| e@)
}

pub(crate) fn check(id: &str, desc: &str, passed: bool, detail: String) -> (e: CheckEntry)
    ensures
        e@ == (CheckView { id: id@, desc: desc@, passed, detail: detail@ }),
{
    CheckEntry { id: String::from_str(id), desc: String::from_str(desc), passed, detail }
}

/// `prefix` followed by `text`.
pub(crate) fn labelled(prefix: &str, text: &str) -> (s: String)
    ensures
        s@ == prefix@ + text@,
{
    let mut s = String::from_str(prefix);
    s.append(text);
    s
}

/// `prefix` followed by the decimal text of `n`.
pub(crate) fn labelled_number(prefix: &str, n: u64) -> (s: String)
    ensures
        s@ == prefix@ + spec_decimal(n as nat),
{
    let mut s = String::from_str(prefix);
    push_decimal(&mut s, n);
    s
}

/// The per-channel states of the health endpoint.
pub struct ChannelFacts {
    pub ma: String,
    pub volt: String,
    pub psu: String,
    pub opto: String,
}

/// What the health endpoint reported, as the checks read it; the cycle
/// time comes as its display texts with two and with three decimals.
pub struct HealthFacts {
    pub status: String,
    pub uptime_s: u64,
    pub last_cycle_ms_2: String,
    pub last_cycle_ms_3: String,
    pub i2c_errors: u64,
    pub i2c_recoveries: u32,
    pub relay_mismatches: u32,
    pub channels: Option<ChannelFacts>,
}

/// The detail of the channel check: the four states, or `MISSING`.
pub open spec fn spec_channels_detail(ch: Option<ChannelFacts>) -> Seq<char> {
    match ch {
        Some(c) => "ma="@ + c.ma@ + " volt="@ + c.volt@ + " psu="@ + c.psu@ + " opto="@ + c.opto@,
        None => "MISSING"@,
    }
}

/// The health endpoint checks, from the fetched report (or the text of
/// the error that prevented it) and the two judgments of the cycle time:
/// `cycle_positive` (above 0 ms) and `cycle_fast` (above 0 and below
/// 15 ms).  Without a report only the first check is made, and it fails.
pub open spec fn spec_health_checks(
    fetched: Result<HealthFacts, String>,
    cycle_positive: bool,
    cycle_fast: bool,
) -> Seq<CheckView> {
    match fetched {
        Err(e) => seq![CheckView { id: "HH-01"@, desc: "Health endpoint responds"@, passed: false, detail: e@ }],
        Ok(f) => seq![
            CheckView { id: "HH-01"@, desc: "Health endpoint responds"@, passed: true, detail: "HTTP 200"@ },
            CheckView { id: "HH-02"@, desc: "Response is valid JSON"@, passed: true, detail: ""@ },
            CheckView {
                id: "HH-03"@,
                desc: "Status is \"ok\" or \"degraded\""@,
                passed: f.status@ == "ok"@ || f.status@ == "degraded"@,
                detail: "status="@ + f.status@,
            },
            CheckView {
                id: "HH-04"@,
                desc: "Uptime > 0 seconds"@,
                passed: f.uptime_s > 0,
                detail: "uptime_s="@ + spec_decimal(f.uptime_s as nat),
            },
            CheckView {
                id: "HH-05"@,
                desc: "Cycle time present and > 0"@,
                passed: cycle_positive,
                detail: "last_cycle_ms="@ + f.last_cycle_ms_2@,
            },
            CheckView {
                id: "HH-06"@,
                desc: "i2c_errors field present"@,
                passed: true,
                detail: "i2c_errors="@ + spec_decimal(f.i2c_errors as nat),
            },
            CheckView {
                id: "HH-07"@,
                desc: "i2c_recoveries field present"@,
                passed: true,
                detail: "i2c_recoveries="@ + spec_decimal(f.i2c_recoveries as nat),
            },
            CheckView {
                id: "HH-08"@,
                desc: "relay_mismatches field present"@,
                passed: true,
                detail: "relay_mismatches="@ + spec_decimal(f.relay_mismatches as nat),
            },
            CheckView {
                id: "HH-09"@,
                desc: "All 4 channel status fields present"@,
                passed: f.channels is Some,
                detail: spec_channels_detail(f.channels),
            },
            CheckView {
                id: "HH-10"@,
                desc: "I/O cycle < 15 ms"@,
                passed: cycle_fast,
                detail: "last_cycle_ms="@ + f.last_cycle_ms_3@,
            },
        ],
    }
}

/// The health endpoint checks (see [`spec_health_checks`]).
pub fn health_checks(fetched: Result<HealthFacts, String>, cycle_positive: bool, cycle_fast: bool) -> (r:
    Vec<CheckEntry>)
    ensures
        checks_view(r@) == spec_health_checks(fetched, cycle_positive, cycle_fast),
{
    let mut r: Vec<CheckEntry> = Vec::new();
    match fetched {
        Err(e) => {
            let ghost ev = e@;
            r.push(check("HH-01", "Health endpoint responds", false, e));
            proof {
                assert(checks_view(r@) =~= seq![CheckView { id: "HH-01"@, desc: "Health endpoint responds"@, passed: false, detail: ev }]);
            }
        },
        Ok(f) => {
            let ghost fv = f;
            r.push(check("HH-01", "Health endpoint responds", true, String::from_str("HTTP 200")));
            r.push(check("HH-02", "Response is valid JSON", true, String::from_str("")));
            let status_ok = status_acceptable(&f.status);
            r.push(check("HH-03", "Status is \"ok\" or \"degraded\"", status_ok, labelled("status=", f.status.as_str())));
            r.push(check("HH-04", "Uptime > 0 seconds", f.uptime_s > 0, labelled_number("uptime_s=", f.uptime_s)));
            r.push(check("HH-05", "Cycle time present and > 0", cycle_positive, labelled("last_cycle_ms=", f.last_cycle_ms_2.as_str())));
            r.push(check("HH-06", "i2c_errors field present", true, labelled_number("i2c_errors=", f.i2c_errors)));
            r.push(check("HH-07", "i2c_recoveries field present", true, labelled_number("i2c_recoveries=", f.i2c_recoveries as u64)));
            r.push(check("HH-08", "relay_mismatches field present", true, labelled_number("relay_mismatches=", f.relay_mismatches as u64)));
            let ch_ok = f.channels.is_some();
            let ch_detail = match &f.channels {
                Some(c) => {
                    let mut d = labelled("ma=", c.ma.as_str());
                    d.append(" volt=");
                    d.append(c.volt.as_str());
                    d.append(" psu=");
                    d.append(c.psu.as_str());
                    d.append(" opto=");
                    d.append(c.opto.as_str());
                    d
                },
                None => String::from_str("MISSING"),
            };
            r.push(check("HH-09", "All 4 channel status fields present", ch_ok, ch_detail));
            r.push(check("HH-10", "I/O cycle < 15 ms", cycle_fast, labelled("last_cycle_ms=", f.last_cycle_ms_3.as_str())));
            proof {
                assert(checks_view(r@) =~= spec_health_checks(Ok(fv), cycle_positive, cycle_fast));
            }
        },
    }
    r
}


/// One health sample of the stability run, as the checks read it.
pub struct StabilitySample {
    pub status: String,
    pub i2c_errors: u64,
}

/// Whether every sample reported the status `ok`.
pub open spec fn spec_all_ok(samples: Seq<StabilitySample>) -> bool {
    forall|i: int| 0 <= i < samples.len() ==> #[trigger] samples[i].status@ == "ok"@
}

/// The stability checks of a run of `duration_s` seconds, from the health
/// samples collected (in order), whether the largest cycle time stayed
/// below 15 ms and that judgment's display text.  Without samples only the
/// first check is made, and it fails.  New I²C errors are the last
/// sample's counter less the first's (wrapping).
pub open spec fn spec_stability_checks(
    duration_s: u64,
    samples: Seq<StabilitySample>,
    cycle_fast: bool,
    cycle_text: Seq<char>,
) -> Seq<CheckView> {
    if samples.len() == 0 {
        seq![
            CheckView {
                id: "HS-01"@,
                desc: spec_decimal(duration_s as nat) + "s stability test"@,
                passed: false,
                detail: "No samples collected"@,
            },
        ]
    } else {
        let fresh = ((samples.last().i2c_errors - samples[0].i2c_errors) % 0x1_0000_0000_0000_0000int) as u64;
        seq![
            CheckView {
                id: "HS-01"@,
                desc: spec_decimal(duration_s as nat) + "s stability test collected samples"@,
                passed: samples.len() >= duration_s,
                detail: spec_decimal(samples.len()) + " samples"@,
            },
            CheckView {
                id: "HS-02"@,
                desc: "No new I2C errors during test"@,
                passed: fresh == 0,
                detail: "new_errors="@ + spec_decimal(fresh as nat),
            },
            CheckView {
                id: "HS-03"@,
                desc: "Health status stayed ok throughout"@,
                passed: spec_all_ok(samples),
                detail: ""@,
            },
            CheckView {
                id: "HS-04"@,
                desc: "Max cycle time < 15 ms"@,
                passed: cycle_fast,
                detail: cycle_text,
            },
        ]
    }
}

/// The stability checks (see [`spec_stability_checks`]).
pub fn stability_checks(
    duration_s: u64,
    samples: &[StabilitySample],
    cycle_fast: bool,
    cycle_text: &str,
) -> (r: Vec<CheckEntry>)
    ensures
        checks_view(r@) == spec_stability_checks(duration_s, samples@, cycle_fast, cycle_text@),
{
    let mut r: Vec<CheckEntry> = Vec::new();
    if samples.len() == 0 {
        let mut d = String::new();
        push_decimal(&mut d, duration_s);
        d.append("s stability test");
        r.push(CheckEntry { id: String::from_str("HS-01"), desc: d, passed: false, detail: String::from_str("No samples collected") });
        proof {
            assert(checks_view(r@) =~= spec_stability_checks(duration_s, samples@, cycle_fast, cycle_text@));
        }
        return r;
    }
    let mut d = String::new();
    push_decimal(&mut d, duration_s);
    d.append("s stability test collected samples");
    let mut detail = String::new();
    push_decimal(&mut detail, samples.len() as u64);
    detail.append(" samples");
    r.push(CheckEntry {
        id: String::from_str("HS-01"),
        desc: d,
        passed: samples.len() as u64 >= duration_s,
        detail,
    });
    let fresh = new_errors(samples[0].i2c_errors, samples[samples.len() - 1].i2c_errors);
    r.push(check("HS-02", "No new I2C errors during test", fresh == 0, labelled_number("new_errors=", fresh)));
    let mut all_ok = true;
    let mut i: usize = 0;
    while i < samples.len()
        invariant
            i <= samples@.len(),
            all_ok == forall|k: int| 0 <= k < i ==> #[trigger] samples@[k].status@ == "ok"@,
        decreases samples@.len() - i,
    {
        if !str_is(&samples[i].status, "ok") {
            all_ok = false;
        }
        i += 1;
    }
    r.push(check("HS-03", "Health status stayed ok throughout", all_ok, String::from_str("")));
    r.push(check("HS-04", "Max cycle time < 15 ms", cycle_fast, String::from_str(cycle_text)));
    proof {
        assert(checks_view(r@) =~= spec_stability_checks(duration_s, samples@, cycle_fast, cycle_text@));
    }
    r
}

} // verus!
