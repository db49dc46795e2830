//! Health statistics and the JSON body of the health endpoint.
//!
//! The poll loop records cycle times, I²C errors, bus recoveries, relay
//! read-back mismatches and the per-channel status of the
//! [`ChannelWatchdog`]; the HTTP side asks for the JSON body:
//!
//! ```json
//! {"status":"ok","uptime_s":1234,"last_cycle_ms":0.42,"i2c_errors":0,
//!  "i2c_recoveries":0,"relay_mismatches":0,
//!  "channels":{"ma":"OK","volt":"OK","psu":"OK","opto":"OK"}}
//! ```
//!
//! The uptime (a clock reading) and the cycle time in milliseconds (a
//! two-decimal rendering of `last_cycle_us / 1000`) are supplied by the
//! caller.
use vstd::prelude::*;
use vstd::string::StringExecFns;
use vstd::string::StringSliceAdditionalSpecFns;

use crate::channel_watchdog::{spec_idx, spec_status, Channel, ChannelStatus, ChannelWatchdog, WatchdogView};
use crate::text::{decimal, push_decimal, spec_decimal};

verus! {

/// Abstract state of [`HealthStats`].
pub struct HealthView {
    pub last_cycle_us: u64,
    pub i2c_errors: u64,
    pub i2c_recoveries: u32,
    pub relay_mismatches: u32,
    /// Per-channel codes packed one byte each: byte 0 = mA, 1 = volt,
    /// 2 = PSU, 3 = opto; 0 = OK, 1 = STALE, 2 = FAULT.
    pub channel_status: u32,
    /// I²C errors counted since the last cycle time was recorded (the
    /// cycle in progress).
    pub cycle_errors: u64,
    /// I²C errors of the last finished cycle.
    pub last_cycle_errors: u64,
}

/// Health statistics updated by the poll loop.
#[derive(Debug)]
pub struct HealthStats {
    last_cycle_us: u64,
    i2c_errors: u64,
    i2c_recoveries: u32,
    relay_mismatches: u32,
    channel_status: u32,
    cycle_errors: u64,
    last_cycle_errors: u64,
}

impl View for HealthStats {
    type V = HealthView;

    closed spec fn view(&self) -> HealthView {
        HealthView {
            last_cycle_us: self.last_cycle_us,
            i2c_errors: self.i2c_errors,
            i2c_recoveries: self.i2c_recoveries,
            relay_mismatches: self.relay_mismatches,
            channel_status: self.channel_status,
            cycle_errors: self.cycle_errors,
            last_cycle_errors: self.last_cycle_errors,
        }
    }
}

/// The status code of a channel: 0 = OK, 1 = STALE, 2 = FAULT.
pub open spec fn spec_status_code(s: ChannelStatus) -> u32 {
    match s {
        ChannelStatus::Healthy => 0,
        ChannelStatus::Stale => 1,
        ChannelStatus::Fault => 2,
    }
}

/// The four status codes of a watchdog, one byte each in channel order.
pub open spec fn spec_pack_status(w: WatchdogView) -> u32 {
    (spec_status_code(spec_status(w, Channel::Ma)) + spec_status_code(spec_status(w, Channel::Volt))
        * 0x100 + spec_status_code(spec_status(w, Channel::Psu)) * 0x1_0000 + spec_status_code(
        spec_status(w, Channel::Opto),
    ) * 0x100_0000) as u32
}

/// The byte of `cs` that starts at bit `shift`.
pub open spec fn spec_byte(cs: u32, shift: u32) -> u32 {
    (cs >> shift) & 0xff
}

/// The tag shown for a status code: `OK`, `STALE`, anything else `FAULT`.
pub open spec fn spec_code_tag(code: u32) -> Seq<char> {
    if code == 0 {
        "OK"@
    } else if code == 1 {
        "STALE"@
    } else {
        "FAULT"@
    }
}

/// Overall status: `ok` when every channel code is 0 and no I²C error was
/// counted in the last finished cycle or in the cycle in progress,
/// `degraded` otherwise (the error count itself stays cumulative).
pub open spec fn spec_overall(v: HealthView) -> Seq<char> {
    if v.channel_status == 0 && v.last_cycle_errors == 0 && v.cycle_errors == 0 {
        "ok"@
    } else {
        "degraded"@
    }
}

/// The JSON body for the state `v`, an uptime in seconds and the
/// rendered cycle time in milliseconds.
pub open spec fn spec_health_json(v: HealthView, uptime_s: nat, cycle_ms: Seq<char>) -> Seq<char> {
    "{\"status\":\""@ + spec_overall(v) + "\",\"uptime_s\":"@ + spec_decimal(uptime_s)
        + ",\"last_cycle_ms\":"@ + cycle_ms + ",\"i2c_errors\":"@ + spec_decimal(
        v.i2c_errors as nat,
    ) + ",\"i2c_recoveries\":"@ + spec_decimal(v.i2c_recoveries as nat)
        + ",\"relay_mismatches\":"@ + spec_decimal(v.relay_mismatches as nat)
        + ",\"channels\":{\"ma\":\""@ + spec_code_tag(spec_byte(v.channel_status, 0))
        + "\",\"volt\":\""@ + spec_code_tag(spec_byte(v.channel_status, 8)) + "\",\"psu\":\""@
        + spec_code_tag(spec_byte(v.channel_status, 16)) + "\",\"opto\":\""@ + spec_code_tag(
        spec_byte(v.channel_status, 24),
    ) + "\"}}"@
}

fn status_code(s: ChannelStatus) -> (c: u32)
    ensures
        c == spec_status_code(s),
{
    match s {
        ChannelStatus::Healthy => 0,
        ChannelStatus::Stale => 1,
        ChannelStatus::Fault => 2,
    }
}

fn push_tag(s: &mut String, code: u32)
    ensures
        final(s)@ == old(s)@ + spec_code_tag(code),
{
    if code == 0 {
        s.append("OK");
    } else if code == 1 {
        s.append("STALE");
    } else {
        s.append("FAULT");
    }
}

impl HealthStats {
    /// All counters zero, every channel OK.
    pub fn new() -> (h: Self)
        ensures
            h@ == (HealthView {
                last_cycle_us: 0,
                i2c_errors: 0,
                i2c_recoveries: 0,
                relay_mismatches: 0,
                channel_status: 0,
                cycle_errors: 0,
                last_cycle_errors: 0,
            }),
    {
        HealthStats {
            last_cycle_us: 0,
            i2c_errors: 0,
            i2c_recoveries: 0,
            relay_mismatches: 0,
            channel_status: 0,
            cycle_errors: 0,
            last_cycle_errors: 0,
        }
    }

    /// Record the duration of the I/O cycle that just finished; its error
    /// count becomes that of the last cycle, and a new cycle starts with
    /// none.
    pub fn set_cycle_time(&mut self, microseconds: u64)
        ensures
            final(self)@ == (HealthView {
                last_cycle_us: microseconds,
                last_cycle_errors: old(self)@.cycle_errors,
                cycle_errors: 0,
                ..old(self)@
            }),
    {
        self.last_cycle_us = microseconds;
        self.last_cycle_errors = self.cycle_errors;
        self.cycle_errors = 0;
    }

    /// Duration of the most recent I/O cycle, in microseconds.
    pub fn last_cycle_us(&self) -> (us: u64)
        ensures
            us == self@.last_cycle_us,
    {
        self.last_cycle_us
    }

    /// Count an I²C error, in the cumulative counter and in that of the
    /// cycle in progress (both wrapping at `u64::MAX`).
    pub fn inc_i2c_errors(&mut self)
        ensures
            final(self)@ == (HealthView {
                i2c_errors: ((old(self)@.i2c_errors + 1) % 0x1_0000_0000_0000_0000int) as u64,
                cycle_errors: ((old(self)@.cycle_errors + 1) % 0x1_0000_0000_0000_0000int) as u64,
                ..old(self)@
            }),
    {
        if self.i2c_errors == u64::MAX {
            self.i2c_errors = 0;
        } else {
            self.i2c_errors = self.i2c_errors + 1;
        }
        if self.cycle_errors == u64::MAX {
            self.cycle_errors = 0;
        } else {
            self.cycle_errors = self.cycle_errors + 1;
        }
    }

    /// Set the I²C bus recovery counter (taken from the bus watchdog).
    pub fn set_recovery_count(&mut self, count: u32)
        ensures
            final(self)@ == (HealthView { i2c_recoveries: count, ..old(self)@ }),
    {
        self.i2c_recoveries = count;
    }

    /// Increment the relay read-back mismatch counter (wrapping at `u32::MAX`).
    pub fn inc_relay_mismatches(&mut self)
        ensures
            final(self)@ == (HealthView {
                relay_mismatches: ((old(self)@.relay_mismatches + 1) % 0x1_0000_0000int) as u32,
                ..old(self)@
            }),
    {
        if self.relay_mismatches == u32::MAX {
            self.relay_mismatches = 0;
        } else {
            self.relay_mismatches = self.relay_mismatches + 1;
        }
    }

    /// Store packed per-channel codes directly (byte 0 = mA … byte 3 = opto).
    pub fn set_channel_status(&mut self, packed: u32)
        ensures
            final(self)@ == (HealthView { channel_status: packed, ..old(self)@ }),
    {
        self.channel_status = packed;
    }

    /// Snapshot the per-channel health of the channel watchdog.
    pub fn update_channel_status(&mut self, ch_wd: &ChannelWatchdog)
        ensures
            final(self)@ == (HealthView {
                channel_status: spec_pack_status(ch_wd@),
                ..old(self)@
            }),
    {
        let ma = status_code(ch_wd.status(Channel::Ma));
        let volt = status_code(ch_wd.status(Channel::Volt));
        let psu = status_code(ch_wd.status(Channel::Psu));
        let opto = status_code(ch_wd.status(Channel::Opto));
        self.channel_status = ma + volt * 0x100 + psu * 0x1_0000 + opto * 0x100_0000;
    }

    /// The JSON health body, given the uptime in seconds and the cycle time
    /// already rendered in milliseconds with two decimals.
    pub fn to_json(&self, uptime_s: u64, last_cycle_ms: &str) -> (json: String)
        ensures
            json@ == spec_health_json(self@, uptime_s as nat, last_cycle_ms@),
    {
        let cs = self.channel_status;
        let mut s = String::from_str("{\"status\":\"");
        if cs == 0 && self.last_cycle_errors == 0 && self.cycle_errors == 0 {
            s.append("ok");
        } else {
            s.append("degraded");
        }
        s.append("\",\"uptime_s\":");
        push_decimal(&mut s, uptime_s);
        s.append(",\"last_cycle_ms\":");
        s.append(last_cycle_ms);
        s.append(",\"i2c_errors\":");
        push_decimal(&mut s, self.i2c_errors);
        s.append(",\"i2c_recoveries\":");
        push_decimal(&mut s, self.i2c_recoveries as u64);
        s.append(",\"relay_mismatches\":");
        push_decimal(&mut s, self.relay_mismatches as u64);
        s.append(",\"channels\":{\"ma\":\"");
        push_tag(&mut s, cs & 0xff);
        s.append("\",\"volt\":\"");
        push_tag(&mut s, (cs >> 8) & 0xff);
        s.append("\",\"psu\":\"");
        push_tag(&mut s, (cs >> 16) & 0xff);
        s.append("\",\"opto\":\"");
        push_tag(&mut s, (cs >> 24) & 0xff);
        s.append("\"}}");
        proof {
            assert(cs & 0xff == (cs >> 0u32) & 0xff) by (bit_vector);
        }
        s
    }
}

/// Whether an HTTP request asks for the health endpoint: its first line
/// starts with `GET /health`.
pub open spec fn spec_is_health_request(request: Seq<char>) -> bool {
    request.len() >= 11 && request.subrange(0, 11) == "GET /health"@
}

/// The body of the answer to any other request.
pub open spec fn spec_not_found_body() -> Seq<char> {
    "{\"error\":\"not found\"}"@
}

/// An HTTP/1.1 answer with a JSON body of `len` bytes.
pub open spec fn spec_http_answer(status: Seq<char>, len: nat, body: Seq<char>) -> Seq<char> {
    status + "\r\nContent-Type: application/json\r\nContent-Length: "@ + spec_decimal(len)
        + "\r\nConnection: close\r\n\r\n"@ + body
}

/// The answer of the health endpoint to `request`: `200 OK` with the
/// health JSON `json` for `GET /health`, `404 Not Found` with a small JSON
/// error otherwise; the connection is closed after it.
pub fn http_health_response(request: &str, json: &str) -> (resp: String)
    ensures
        spec_is_health_request(request@) ==> resp@ == spec_http_answer(
            "HTTP/1.1 200 OK"@,
            (json.spec_bytes().len() as usize) as nat,
            json@,
        ),
        !spec_is_health_request(request@) ==> resp@ == spec_http_answer(
            "HTTP/1.1 404 Not Found"@,
            21,
            spec_not_found_body(),
        ),
{
    let is_health = if request.unicode_len() >= 11 {
        let head = String::from_str(request.substring_char(0, 11));
        let want = String::from_str("GET /health");
        head == want
    } else {
        false
    };
    if is_health {
        let len = json.len();
        http_answer("HTTP/1.1 200 OK", len, json)
    } else {
        http_answer("HTTP/1.1 404 Not Found", 21, "{\"error\":\"not found\"}")
    }
}

fn http_answer(status: &str, len: usize, body: &str) -> (resp: String)
    ensures
        resp@ == spec_http_answer(status@, len as nat, body@),
{
    let mut resp = String::from_str(status);
    resp.append("\r\nContent-Type: application/json\r\nContent-Length: ");
    let n = decimal(len as u64);
    resp.append(n.as_str());
    resp.append("\r\nConnection: close\r\n\r\n");
    resp.append(body);
    resp
}

// ── Laws ─────────────────────────────────────────────────────────────

/// After a snapshot of a watchdog, the JSON shows for every channel the
/// tag of its watchdog status, and the channel part of the overall status
/// is `ok` exactly when every channel is OK.
pub proof fn lemma_snapshot_shows_watchdog_status(w: WatchdogView, ch: Channel)
    ensures
        spec_code_tag(spec_byte(spec_pack_status(w), (8 * spec_idx(ch)) as u32))
            == crate::channel_watchdog::spec_status_tag(spec_status(w, ch)),
        (spec_pack_status(w) == 0) <==> (spec_status(w, Channel::Ma) == ChannelStatus::Healthy
            && spec_status(w, Channel::Volt) == ChannelStatus::Healthy && spec_status(
            w,
            Channel::Psu,
        ) == ChannelStatus::Healthy && spec_status(w, Channel::Opto) == ChannelStatus::Healthy),
{
    let c0 = spec_status_code(spec_status(w, Channel::Ma));
    let c1 = spec_status_code(spec_status(w, Channel::Volt));
    let c2 = spec_status_code(spec_status(w, Channel::Psu));
    let c3 = spec_status_code(spec_status(w, Channel::Opto));
    assert(c0 <= 2 && c1 <= 2 && c2 <= 2 && c3 <= 2);
    let p = spec_pack_status(w);
    assert(p == (c0 + c1 * 0x100 + c2 * 0x1_0000 + c3 * 0x100_0000) as u32);
    lemma_unpack(c0, c1, c2, c3, p);
}

proof fn lemma_unpack(c0: u32, c1: u32, c2: u32, c3: u32, p: u32)
    by (bit_vector)
    requires
        c0 <= 2,
        c1 <= 2,
        c2 <= 2,
        c3 <= 2,
        p == (c0 + c1 * 0x100 + c2 * 0x1_0000 + c3 * 0x100_0000) as u32,
    ensures
        (p >> 0u32) & 0xff == c0,
        (p >> 8u32) & 0xff == c1,
        (p >> 16u32) & 0xff == c2,
        (p >> 24u32) & 0xff == c3,
        (p == 0) <==> (c0 == 0 && c1 == 0 && c2 == 0 && c3 == 0),
{
}

} // verus!
