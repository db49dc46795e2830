//! Per-channel I²C read watchdog with last-known-good fallback.
//!
//! Each logical I/O channel (4-20 mA bank, 0-10 V bank, system voltage,
//! opto inputs) is tracked independently.  When a read fails the watchdog
//!
//! 1. returns the last-known-good value so the data bank stays fresh,
//! 2. increments a per-channel consecutive-failure counter,
//! 3. marks the channel **FAULT** after `fault_threshold` consecutive
//!    failures.
//!
//! If all channels are in FAULT at once the caller can trigger the
//! bus-level recovery of [`crate::i2c_recovery`].
//!
//! Analog values are kept as Modbus register values (physical value × 100).
use vstd::prelude::*;

use crate::registers::{I4_20_IN_CHANNELS, OPTO_CHANNELS, U0_10_IN_CHANNELS};

verus! {

/// Logical I/O channel groups tracked by the watchdog.
#[derive(Debug, Clone, Copy, PartialEq, Eq, Structural)]
pub enum Channel {
    /// 4-20 mA inputs (8 channels as one I²C read).
    Ma,
    /// 0-10 V inputs (4 channels as one I²C read).
    Volt,
    /// System / PSU voltage.
    Psu,
    /// Opto-isolated inputs.
    Opto,
}

/// Health of one channel as shown in the heartbeat and health endpoint.
#[derive(Debug, Clone, Copy, PartialEq, Eq, Structural)]
pub enum ChannelStatus {
    Healthy,
    Stale,
    Fault,
}

/// Display label of a channel.
pub open spec fn spec_label(ch: Channel) -> Seq<char> {
    match ch {
        Channel::Ma => "4-20mA"@,
        Channel::Volt => "0-10V"@,
        Channel::Psu => "PSU voltage"@,
        Channel::Opto => "Opto inputs"@,
    }
}

/// Heartbeat tag of a status.
pub open spec fn spec_status_tag(s: ChannelStatus) -> Seq<char> {
    match s {
        ChannelStatus::Healthy => "OK"@,
        ChannelStatus::Stale => "STALE"@,
        ChannelStatus::Fault => "FAULT"@,
    }
}

impl Channel {
    /// All channel variants, in index order.
    pub fn all() -> (a: [Channel; 4])
        ensures
            a@ == seq![Channel::Ma, Channel::Volt, Channel::Psu, Channel::Opto],
    {
        let a = [Channel::Ma, Channel::Volt, Channel::Psu, Channel::Opto];
        assert(a@ =~= seq![Channel::Ma, Channel::Volt, Channel::Psu, Channel::Opto]);
        a
    }

    /// Human-readable label for log messages.
    pub fn label(self) -> (s: &'static str)
        ensures
            s@ == spec_label(self),
    {
        match self {
            Channel::Ma => "4-20mA",
            Channel::Volt => "0-10V",
            Channel::Psu => "PSU voltage",
            Channel::Opto => "Opto inputs",
        }
    }
}

/// Index of a channel in the watchdog's state array.
pub open spec fn spec_idx(ch: Channel) -> int {
    match ch {
        Channel::Ma => 0,
        Channel::Volt => 1,
        Channel::Psu => 2,
        Channel::Opto => 3,
    }
}

#[derive(Debug, Clone, Copy)]
struct ChannelState {
    consecutive_failures: u32,
    faulted: bool,
}

impl ChannelState {
    fn new() -> (s: Self)
        ensures
            s.consecutive_failures == 0,
            !s.faulted,
    {
        ChannelState { consecutive_failures: 0, faulted: false }
    }
}

/// Abstract state of a [`ChannelWatchdog`]: per channel (in index order)
/// the consecutive-failure count and the FAULT flag, the threshold, and
/// the last-known-good values.
pub struct WatchdogView {
    pub failures: Seq<u32>,
    pub faulted: Seq<bool>,
    pub fault_threshold: u32,
    pub last_ma: Seq<u16>,
    pub last_volt: Seq<u16>,
    pub last_psu: u16,
    pub last_opto_val: u8,
    pub last_opto_bits: Seq<bool>,
}

/// State after a successful read of `ch`: counter and FAULT flag cleared.
pub open spec fn spec_after_success(v: WatchdogView, ch: Channel) -> WatchdogView {
    WatchdogView {
        failures: v.failures.update(spec_idx(ch), 0u32),
        faulted: v.faulted.update(spec_idx(ch), false),
        ..v
    }
}

/// The failure count of `ch` after one more failure.
pub open spec fn spec_next_failures(v: WatchdogView, ch: Channel) -> int {
    v.failures[spec_idx(ch)] + 1
}

/// Whether one more failure of `ch` moves it into FAULT: the threshold is
/// enabled, the count reaches it, and the channel was not yet in FAULT.
pub open spec fn spec_just_faulted(v: WatchdogView, ch: Channel) -> bool {
    v.fault_threshold > 0 && spec_next_failures(v, ch) >= v.fault_threshold && !v.faulted[spec_idx(
        ch,
    )]
}

/// State after a failed read of `ch`: one more failure, FAULT once the
/// count reaches an enabled threshold.
pub open spec fn spec_after_failure(v: WatchdogView, ch: Channel) -> WatchdogView {
    WatchdogView {
        failures: v.failures.update(spec_idx(ch), spec_next_failures(v, ch) as u32),
        faulted: v.faulted.update(
            spec_idx(ch),
            v.faulted[spec_idx(ch)] || spec_just_faulted(v, ch),
        ),
        ..v
    }
}

/// FAULT when flagged, STALE after at least one failure, OK otherwise.
pub open spec fn spec_status(v: WatchdogView, ch: Channel) -> ChannelStatus {
    if v.faulted[spec_idx(ch)] {
        ChannelStatus::Fault
    } else if v.failures[spec_idx(ch)] > 0 {
        ChannelStatus::Stale
    } else {
        ChannelStatus::Healthy
    }
}

/// Whether every channel is in FAULT at once (never with the threshold 0).
pub open spec fn spec_all_faulted(v: WatchdogView) -> bool {
    v.fault_threshold > 0 && forall|i: int| 0 <= i < 4 ==> #[trigger] v.faulted[i]
}

/// Tracks per-channel I²C read health and caches last-known-good values.
#[derive(Debug)]
pub struct ChannelWatchdog {
    states: [ChannelState; 4],
    fault_threshold: u32,
    last_ma: [u16; I4_20_IN_CHANNELS],
    last_volt: [u16; U0_10_IN_CHANNELS],
    last_psu: u16,
    last_opto_val: u8,
    last_opto_bits: [bool; OPTO_CHANNELS],
}

impl View for ChannelWatchdog {
    type V = WatchdogView;

    closed spec fn view(&self) -> WatchdogView {
        WatchdogView {
            failures: self.states@.map_values(|s: ChannelState| s.consecutive_failures),
            faulted: self.states@.map_values(|s: ChannelState| s.faulted),
            fault_threshold: self.fault_threshold,
            last_ma: self.last_ma@,
            last_volt: self.last_volt@,
            last_psu: self.last_psu,
            last_opto_val: self.last_opto_val,
            last_opto_bits: self.last_opto_bits@,
        }
    }
}

/// The shape of a watchdog state and its invariant: a channel is only in
/// FAULT while the threshold is enabled and its failure count reaches it.
pub open spec fn spec_watchdog_wf(v: WatchdogView) -> bool {
    &&& v.failures.len() == 4
    &&& v.faulted.len() == 4
    &&& v.last_ma.len() == I4_20_IN_CHANNELS
    &&& v.last_volt.len() == U0_10_IN_CHANNELS
    &&& v.last_opto_bits.len() == OPTO_CHANNELS
    &&& forall|i: int|
        0 <= i < 4 && #[trigger] v.faulted[i] ==> v.fault_threshold > 0 && v.failures[i]
            >= v.fault_threshold
}

impl ChannelWatchdog {
    #[verifier::type_invariant]
    spec fn inv(self) -> bool {
        forall|i: int|
            0 <= i < 4 && #[trigger] self.states@[i].faulted ==> self.fault_threshold > 0
                && self.states@[i].consecutive_failures >= self.fault_threshold
    }

    /// A watchdog with every channel OK and all last-known-good values 0.
    /// `fault_threshold` is the number of consecutive failures before a
    /// channel is marked FAULT; `0` disables fault detection (failures are
    /// still counted and last-known-good values still returned).
    pub fn new(fault_threshold: u32) -> (w: Self)
        ensures
            w@.failures == seq![0u32, 0u32, 0u32, 0u32],
            w@.faulted == seq![false, false, false, false],
            w@.fault_threshold == fault_threshold,
            w@.last_ma == Seq::new(I4_20_IN_CHANNELS as nat, |i: int| 0u16),
            w@.last_volt == Seq::new(U0_10_IN_CHANNELS as nat, |i: int| 0u16),
            w@.last_psu == 0,
            w@.last_opto_val == 0,
            w@.last_opto_bits == Seq::new(OPTO_CHANNELS as nat, |i: int| false),
            spec_watchdog_wf(w@),
    {
        let w = ChannelWatchdog {
            states: [ChannelState::new(), ChannelState::new(), ChannelState::new(), ChannelState::new()],
            fault_threshold,
            last_ma: [0u16; I4_20_IN_CHANNELS],
            last_volt: [0u16; U0_10_IN_CHANNELS],
            last_psu: 0,
            last_opto_val: 0,
            last_opto_bits: [false; OPTO_CHANNELS],
        };
        proof {
            assert(w@.failures =~= seq![0u32, 0u32, 0u32, 0u32]);
            assert(w@.faulted =~= seq![false, false, false, false]);
            assert(w@.last_ma =~= Seq::new(I4_20_IN_CHANNELS as nat, |i: int| 0u16));
            assert(w@.last_volt =~= Seq::new(U0_10_IN_CHANNELS as nat, |i: int| 0u16));
            assert(w@.last_opto_bits =~= Seq::new(OPTO_CHANNELS as nat, |i: int| false));
            use_type_invariant(&w);
        }
        w
    }

    fn idx(ch: Channel) -> (i: usize)
        ensures
            i == spec_idx(ch),
    {
        match ch {
            Channel::Ma => 0,
            Channel::Volt => 1,
            Channel::Psu => 2,
            Channel::Opto => 3,
        }
    }

    /// Record a successful read: the channel's counter and FAULT flag clear.
    pub fn record_success(&mut self, ch: Channel)
        ensures
            final(self)@ == spec_after_success(old(self)@, ch),
            spec_watchdog_wf(final(self)@),
    {
        proof {
            use_type_invariant(&*self);
        }
        let i = Self::idx(ch);
        let ghost before = self@;
        self.states[i] = ChannelState { consecutive_failures: 0, faulted: false };
        proof {
            assert(self@.failures =~= spec_after_success(before, ch).failures);
            assert(self@.faulted =~= spec_after_success(before, ch).faulted);
            use_type_invariant(&*self);
        }
    }

    /// Record a failed read.  Returns `true` exactly when the channel has
    /// just moved into FAULT.
    pub fn record_failure(&mut self, ch: Channel) -> (just_faulted: bool)
        requires
            old(self)@.failures[spec_idx(ch)] < u32::MAX,
        ensures
            just_faulted == spec_just_faulted(old(self)@, ch),
            final(self)@ == spec_after_failure(old(self)@, ch),
            spec_watchdog_wf(final(self)@),
    {
        proof {
            use_type_invariant(&*self);
        }
        let i = Self::idx(ch);
        let ghost before = self@;
        assert(before.failures[i as int] == self.states[i as int].consecutive_failures);
        assert(before.faulted[i as int] == self.states[i as int].faulted);
        let failures = self.states[i].consecutive_failures + 1;
        let was_faulted = self.states[i].faulted;
        let just_faulted = self.fault_threshold > 0 && failures >= self.fault_threshold
            && !was_faulted;
        self.states[i] = ChannelState {
            consecutive_failures: failures,
            faulted: was_faulted || just_faulted,
        };
        proof {
            assert(self@.failures =~= spec_after_failure(before, ch).failures);
            assert(self@.faulted =~= spec_after_failure(before, ch).faulted);
            use_type_invariant(&*self);
        }
        just_faulted
    }

    /// Whether a channel is in FAULT.
    pub fn is_faulted(&self, ch: Channel) -> (b: bool)
        ensures
            b == self@.faulted[spec_idx(ch)],
    {
        self.states[Self::idx(ch)].faulted
    }

    /// Whether all channels are in FAULT at once, which points to a
    /// bus-level failure.
    pub fn all_faulted(&self) -> (b: bool)
        ensures
            b == spec_all_faulted(self@),
    {
        let r = self.fault_threshold > 0 && self.states[0].faulted && self.states[1].faulted
            && self.states[2].faulted && self.states[3].faulted;
        proof {
            if r {
                assert forall|i: int| 0 <= i < 4 implies #[trigger] self@.faulted[i] by {
                    assert(self@.faulted[i] == self.states@[i].faulted);
                }
            } else if self.fault_threshold > 0 {
                assert(!self@.faulted[0] || !self@.faulted[1] || !self@.faulted[2]
                    || !self@.faulted[3]);
            }
        }
        r
    }

    /// Number of consecutive failures of a channel.
    pub fn failure_count(&self, ch: Channel) -> (n: u32)
        ensures
            n == self@.failures[spec_idx(ch)],
    {
        self.states[Self::idx(ch)].consecutive_failures
    }

    /// Store a good 4-20 mA reading (register values) and return it.
    pub fn update_ma(&mut self, values: [u16; I4_20_IN_CHANNELS]) -> (r: [u16; I4_20_IN_CHANNELS])
        ensures
            r == values,
            final(self)@ == (WatchdogView { last_ma: values@, ..spec_after_success(old(self)@, Channel::Ma) }),
    {
        self.record_success(Channel::Ma);
        proof {
            use_type_invariant(&*self);
        }
        self.last_ma = values;
        values
    }

    /// The last-known-good 4-20 mA values, after a failed read.
    pub fn fallback_ma(&mut self) -> (r: [u16; I4_20_IN_CHANNELS])
        requires
            old(self)@.failures[spec_idx(Channel::Ma)] < u32::MAX,
        ensures
            r@ == old(self)@.last_ma,
            final(self)@ == spec_after_failure(old(self)@, Channel::Ma),
    {
        self.record_failure(Channel::Ma);
        self.last_ma
    }

    /// Store a good 0-10 V reading (register values) and return it.
    pub fn update_volt(&mut self, values: [u16; U0_10_IN_CHANNELS]) -> (r: [u16; U0_10_IN_CHANNELS])
        ensures
            r == values,
            final(self)@ == (WatchdogView { last_volt: values@, ..spec_after_success(old(self)@, Channel::Volt) }),
    {
        self.record_success(Channel::Volt);
        proof {
            use_type_invariant(&*self);
        }
        self.last_volt = values;
        values
    }

    /// The last-known-good 0-10 V values, after a failed read.
    pub fn fallback_volt(&mut self) -> (r: [u16; U0_10_IN_CHANNELS])
        requires
            old(self)@.failures[spec_idx(Channel::Volt)] < u32::MAX,
        ensures
            r@ == old(self)@.last_volt,
            final(self)@ == spec_after_failure(old(self)@, Channel::Volt),
    {
        self.record_failure(Channel::Volt);
        self.last_volt
    }

    /// Store a good PSU voltage reading (register value) and return it.
    pub fn update_psu(&mut self, value: u16) -> (r: u16)
        ensures
            r == value,
            final(self)@ == (WatchdogView { last_psu: value, ..spec_after_success(old(self)@, Channel::Psu) }),
    {
        self.record_success(Channel::Psu);
        proof {
            use_type_invariant(&*self);
        }
        self.last_psu = value;
        value
    }

    /// The last-known-good PSU voltage, after a failed read.
    pub fn fallback_psu(&mut self) -> (r: u16)
        requires
            old(self)@.failures[spec_idx(Channel::Psu)] < u32::MAX,
        ensures
            r == old(self)@.last_psu,
            final(self)@ == spec_after_failure(old(self)@, Channel::Psu),
    {
        self.record_failure(Channel::Psu);
        self.last_psu
    }

    /// Store a good opto reading (bitmask and bits) and return it.
    pub fn update_opto(&mut self, val: u8, bits: [bool; OPTO_CHANNELS]) -> (r: (u8, [bool; OPTO_CHANNELS]))
        ensures
            r == (val, bits),
            final(self)@ == (WatchdogView {
                last_opto_val: val,
                last_opto_bits: bits@,
                ..spec_after_success(old(self)@, Channel::Opto)
            }),
    {
        self.record_success(Channel::Opto);
        proof {
            use_type_invariant(&*self);
        }
        self.last_opto_val = val;
        self.last_opto_bits = bits;
        (val, bits)
    }

    /// The last-known-good opto values, after a failed read.
    pub fn fallback_opto(&mut self) -> (r: (u8, [bool; OPTO_CHANNELS]))
        requires
            old(self)@.failures[spec_idx(Channel::Opto)] < u32::MAX,
        ensures
            r.0 == old(self)@.last_opto_val,
            r.1@ == old(self)@.last_opto_bits,
            final(self)@ == spec_after_failure(old(self)@, Channel::Opto),
    {
        self.record_failure(Channel::Opto);
        (self.last_opto_val, self.last_opto_bits)
    }

    /// Health of a channel: FAULT, STALE (failing, not yet FAULT) or OK.
    pub fn status(&self, ch: Channel) -> (s: ChannelStatus)
        ensures
            s == spec_status(self@, ch),
    {
        if self.is_faulted(ch) {
            ChannelStatus::Fault
        } else if self.failure_count(ch) > 0 {
            ChannelStatus::Stale
        } else {
            ChannelStatus::Healthy
        }
    }

    /// Short status tag for the heartbeat log: `"FAULT"`, `"STALE"` or `"OK"`.
    pub fn status_tag(&self, ch: Channel) -> (s: &'static str)
        ensures
            s@ == spec_status_tag(spec_status(self@, ch)),
    {
        match self.status(ch) {
            ChannelStatus::Fault => "FAULT",
            ChannelStatus::Stale => "STALE",
            ChannelStatus::Healthy => "OK",
        }
    }
}


// ── Laws ─────────────────────────────────────────────────────────────

/// State after `n` consecutive failed reads of `ch`.
pub open spec fn spec_after_failures(v: WatchdogView, ch: Channel, n: nat) -> WatchdogView
    decreases n,
{
    if n == 0 {
        v
    } else {
        spec_after_failure(spec_after_failures(v, ch, (n - 1) as nat), ch)
    }
}

/// A failure keeps the state well formed.
pub proof fn lemma_failure_keeps_wf(v: WatchdogView, ch: Channel)
    requires
        spec_watchdog_wf(v),
        v.failures[spec_idx(ch)] < u32::MAX,
    ensures
        spec_watchdog_wf(spec_after_failure(v, ch)),
{
    let w = spec_after_failure(v, ch);
    assert forall|i: int| 0 <= i < 4 && #[trigger] w.faulted[i] implies w.fault_threshold > 0
        && w.failures[i] >= w.fault_threshold by {
        if i != spec_idx(ch) {
            assert(w.faulted[i] == v.faulted[i]);
        }
    }
}

/// Starting from a clean channel, `n` consecutive failures leave the
/// channel with a count of `n`, in FAULT exactly when the threshold is
/// enabled and `n` reaches it (a threshold of 0 never faults), and every
/// other channel and the threshold untouched.
pub proof fn lemma_consecutive_failures(v: WatchdogView, ch: Channel, n: nat)
    requires
        spec_watchdog_wf(v),
        v.failures[spec_idx(ch)] == 0,
        !v.faulted[spec_idx(ch)],
        n <= u32::MAX,
    ensures
        spec_watchdog_wf(spec_after_failures(v, ch, n)),
        spec_after_failures(v, ch, n).failures[spec_idx(ch)] == n,
        spec_after_failures(v, ch, n).faulted[spec_idx(ch)] == (v.fault_threshold > 0 && n
            >= v.fault_threshold),
        spec_after_failures(v, ch, n).fault_threshold == v.fault_threshold,
        forall|i: int|
            0 <= i < 4 && i != spec_idx(ch) ==> #[trigger] spec_after_failures(v, ch, n).failures[i]
                == v.failures[i] && spec_after_failures(v, ch, n).faulted[i] == v.faulted[i],
    decreases n,
{
    if n > 0 {
        lemma_consecutive_failures(v, ch, (n - 1) as nat);
        lemma_failure_keeps_wf(spec_after_failures(v, ch, (n - 1) as nat), ch);
    }
}

/// The FAULT transition is reported exactly once: the `n`-th consecutive
/// failure of a clean channel reports "just faulted" if and only if the
/// threshold is enabled and equal to `n`.
pub proof fn lemma_fault_reported_at_threshold(v: WatchdogView, ch: Channel, n: nat)
    requires
        spec_watchdog_wf(v),
        v.failures[spec_idx(ch)] == 0,
        !v.faulted[spec_idx(ch)],
        1 <= n <= u32::MAX,
    ensures
        spec_just_faulted(spec_after_failures(v, ch, (n - 1) as nat), ch) == (v.fault_threshold
            > 0 && n == v.fault_threshold),
{
    lemma_consecutive_failures(v, ch, (n - 1) as nat);
}

/// A successful read clears FAULT: the channel is OK again with a count
/// of 0, and the state stays well formed.
pub proof fn lemma_success_clears_fault(v: WatchdogView, ch: Channel)
    requires
        spec_watchdog_wf(v),
    ensures
        spec_status(spec_after_success(v, ch), ch) == ChannelStatus::Healthy,
        spec_after_success(v, ch).failures[spec_idx(ch)] == 0,
        spec_watchdog_wf(spec_after_success(v, ch)),
{
    let w = spec_after_success(v, ch);
    assert forall|i: int| 0 <= i < 4 && #[trigger] w.faulted[i] implies w.fault_threshold > 0
        && w.failures[i] >= w.fault_threshold by {
        if i != spec_idx(ch) {
            assert(w.faulted[i] == v.faulted[i]);
        }
    }
}

/// Channels are independent: a read result recorded on one channel leaves
/// the count and FAULT flag of every other channel unchanged.
pub proof fn lemma_channels_independent(v: WatchdogView, ch: Channel, other: Channel)
    requires
        spec_watchdog_wf(v),
        ch != other,
    ensures
        spec_after_failure(v, ch).failures[spec_idx(other)] == v.failures[spec_idx(other)],
        spec_after_failure(v, ch).faulted[spec_idx(other)] == v.faulted[spec_idx(other)],
        spec_after_success(v, ch).failures[spec_idx(other)] == v.failures[spec_idx(other)],
        spec_after_success(v, ch).faulted[spec_idx(other)] == v.faulted[spec_idx(other)],
{
}

/// Last-known-good fallback: after a good 4-20 mA reading is stored, a
/// failed read returns exactly that reading (and likewise for the other
/// channels' values).
pub proof fn lemma_fallback_returns_last_good(
    v: WatchdogView,
    ma: Seq<u16>,
    volt: Seq<u16>,
    psu: u16,
    opto_val: u8,
    opto_bits: Seq<bool>,
)
    ensures
        spec_after_failure(
            WatchdogView { last_ma: ma, ..spec_after_success(v, Channel::Ma) },
            Channel::Ma,
        ).last_ma == ma,
        spec_after_failure(
            WatchdogView { last_volt: volt, ..spec_after_success(v, Channel::Volt) },
            Channel::Volt,
        ).last_volt == volt,
        spec_after_failure(
            WatchdogView { last_psu: psu, ..spec_after_success(v, Channel::Psu) },
            Channel::Psu,
        ).last_psu == psu,
        spec_after_failure(
            WatchdogView {
                last_opto_val: opto_val,
                last_opto_bits: opto_bits,
                ..spec_after_success(v, Channel::Opto)
            },
            Channel::Opto,
        ).last_opto_val == opto_val,
        spec_after_failure(
            WatchdogView {
                last_opto_val: opto_val,
                last_opto_bits: opto_bits,
                ..spec_after_success(v, Channel::Opto)
            },
            Channel::Opto,
        ).last_opto_bits == opto_bits,
{
}

/// Bus-level fault only when every channel faults: with any channel not
/// in FAULT, or with the threshold 0, `all_faulted` is false.
pub proof fn lemma_all_faulted_needs_every_channel(v: WatchdogView, ch: Channel)
    requires
        spec_watchdog_wf(v),
        !v.faulted[spec_idx(ch)] || v.fault_threshold == 0,
    ensures
        !spec_all_faulted(v),
{
    if v.fault_threshold > 0 {
        assert(!v.faulted[spec_idx(ch)]);
    }
}


/// A call on a [`ChannelWatchdog`] that changes it.
pub enum WatchdogCall {
    /// `record_success(ch)`.
    Success(Channel),
    /// `record_failure(ch)`, or the `fallback_*` of the channel.
    Failure(Channel),
    /// `update_ma(values)`.
    UpdateMa(Seq<u16>),
    /// `update_volt(values)`.
    UpdateVolt(Seq<u16>),
    /// `update_psu(value)`.
    UpdatePsu(u16),
    /// `update_opto(val, bits)`.
    UpdateOpto(u8, Seq<bool>),
}

/// The state after one call, as the call's contract states it.
pub open spec fn spec_after_call(v: WatchdogView, c: WatchdogCall) -> WatchdogView {
    match c {
        WatchdogCall::Success(ch) => spec_after_success(v, ch),
        WatchdogCall::Failure(ch) => spec_after_failure(v, ch),
        WatchdogCall::UpdateMa(values) => WatchdogView {
            last_ma: values,
            ..spec_after_success(v, Channel::Ma)
        },
        WatchdogCall::UpdateVolt(values) => WatchdogView {
            last_volt: values,
            ..spec_after_success(v, Channel::Volt)
        },
        WatchdogCall::UpdatePsu(value) => WatchdogView {
            last_psu: value,
            ..spec_after_success(v, Channel::Psu)
        },
        WatchdogCall::UpdateOpto(val, bits) => WatchdogView {
            last_opto_val: val,
            last_opto_bits: bits,
            ..spec_after_success(v, Channel::Opto)
        },
    }
}

/// The state after the calls `cs`, in order.
pub open spec fn spec_after_calls(v: WatchdogView, cs: Seq<WatchdogCall>) -> WatchdogView
    decreases cs.len(),
{
    if cs.len() == 0 {
        v
    } else {
        spec_after_call(spec_after_calls(v, cs.drop_last()), cs.last())
    }
}

/// Number of failed 4-20 mA reads among the calls.
pub open spec fn spec_ma_failures(cs: Seq<WatchdogCall>) -> nat
    decreases cs.len(),
{
    if cs.len() == 0 {
        0
    } else {
        spec_ma_failures(cs.drop_last()) + if cs.last() == WatchdogCall::Failure(Channel::Ma) {
            1nat
        } else {
            0nat
        }
    }
}

/// Whether a call stores or clears the 4-20 mA channel.
pub open spec fn spec_touches_ma_reading(c: WatchdogCall) -> bool {
    c is UpdateMa || c == WatchdogCall::Success(Channel::Ma)
}

/// Last-known-good across calls: after `update_ma(values)`, whatever
/// calls follow (failed reads of any channel, good readings of the other
/// channels), as long as no new 4-20 mA reading comes, the stored 4-20 mA
/// values, which `fallback_ma` returns, stay `values`, and the 4-20 mA
/// failure count is the number of failed 4-20 mA reads since.
pub proof fn lemma_last_good_ma_survives(v: WatchdogView, values: Seq<u16>, cs: Seq<WatchdogCall>)
    requires
        v.failures.len() == 4,
        forall|i: int| 0 <= i < cs.len() ==> !spec_touches_ma_reading(#[trigger] cs[i]),
        spec_ma_failures(cs) <= u32::MAX,
    ensures
        spec_after_calls(spec_after_call(v, WatchdogCall::UpdateMa(values)), cs).last_ma == values,
        spec_after_calls(spec_after_call(v, WatchdogCall::UpdateMa(values)), cs).failures[spec_idx(
            Channel::Ma,
        )] == spec_ma_failures(cs),
        spec_after_calls(spec_after_call(v, WatchdogCall::UpdateMa(values)), cs).failures.len()
            == 4,
    decreases cs.len(),
{
    if cs.len() > 0 {
        let prev = cs.drop_last();
        assert forall|i: int| 0 <= i < prev.len() implies !spec_touches_ma_reading(
            #[trigger] prev[i],
        ) by {
            assert(prev[i] == cs[i]);
        }
        lemma_last_good_ma_survives(v, values, prev);
        assert(!spec_touches_ma_reading(cs[cs.len() - 1]));
    }
}


/// Every watchdog tracks four channels.
pub proof fn lemma_four_channels(w: ChannelWatchdog)
    ensures
        w@.failures.len() == 4,
        w@.faulted.len() == 4,
{
}

proof fn lemma_ma_failures_prefix(cs: Seq<WatchdogCall>, k: int)
    requires
        0 <= k <= cs.len(),
    ensures
        spec_ma_failures(cs.take(k)) <= spec_ma_failures(cs),
    decreases cs.len(),
{
    if k < cs.len() {
        lemma_ma_failures_prefix(cs.drop_last(), k);
        assert(cs.drop_last().take(k) =~= cs.take(k));
    } else {
        assert(cs.take(k) =~= cs);
    }
}

/// Last-known-good at every step: after `update_ma(values)` and any calls
/// that bring no new 4-20 mA reading, at every point of those calls the
/// stored 4-20 mA values are `values` (so each `fallback_ma` among them
/// returns `values`) and the 4-20 mA failure count is the number of failed
/// 4-20 mA reads so far.  Every watchdog tracks four channels
/// ([`lemma_four_channels`]); the count must stay within `u32`, as
/// `fallback_ma` requires.
pub proof fn lemma_fallback_ma_returns_last_good(
    v: WatchdogView,
    values: Seq<u16>,
    cs: Seq<WatchdogCall>,
)
    requires
        v.failures.len() == 4,
        forall|i: int| 0 <= i < cs.len() ==> !spec_touches_ma_reading(#[trigger] cs[i]),
        spec_ma_failures(cs) <= u32::MAX,
    ensures
        forall|k: int|
            0 <= k <= cs.len() ==> {
                let w = #[trigger] spec_after_calls(
                    spec_after_call(v, WatchdogCall::UpdateMa(values)),
                    cs.take(k),
                );
                &&& w.last_ma == values
                &&& w.failures[spec_idx(Channel::Ma)] == spec_ma_failures(cs.take(k))
            },
{
    assert forall|k: int| 0 <= k <= cs.len() implies {
        let w = #[trigger] spec_after_calls(
            spec_after_call(v, WatchdogCall::UpdateMa(values)),
            cs.take(k),
        );
        &&& w.last_ma == values
        &&& w.failures[spec_idx(Channel::Ma)] == spec_ma_failures(cs.take(k))
    } by {
        let p = cs.take(k);
        assert forall|i: int| 0 <= i < p.len() implies !spec_touches_ma_reading(#[trigger] p[i]) by {
            assert(p[i] == cs[i]);
        }
        lemma_ma_failures_prefix(cs, k);
        lemma_last_good_ma_survives(v, values, p);
    }
}

} // verus!
