//! The decisions of the I²C poll cycle.
//!
//! Each 100 ms tick the application runs, in order:
//!
//! 1. [`PollState::read_phase`]: every registered board polls its inputs;
//!    the bus and channel watchdogs and the error counter are updated,
//!    and with `map_opto` the opto bitmask is copied to holding register 15;
//! 2. [`PollState::recovery_needed`]: when due, the application performs
//!    the GPIO bus recovery and books it with [`PollState::book_recovery`]
//!    (a successful one re-opens the boards and skips the rest of the tick);
//! 3. [`PollState::write_phase`]: every board applies its outputs;
//! 4. [`PollState::verify_phase`]: every N-th tick, relay boards are read
//!    back, mismatches on confirmed relays counted and invalidated, and the
//!    read-back bitmask stored in holding register 24;
//! 5. [`PollState::finish_cycle`]: the health statistics are updated.
//!
//! Timing, sleeping, logging and the GPIO pulses stay with the caller.
use vstd::prelude::*;

use crate::board_registry::BoardRegistry;
use crate::cache::word_bit;
use crate::channel_watchdog::{
    spec_after_failure, spec_after_success, spec_all_faulted, spec_idx, Channel, ChannelWatchdog,
    WatchdogView,
};
use crate::databank::{DataBank, DISCRETE_INPUT_COUNT, HOLDING_REGISTER_COUNT, HR_RELAY_READBACK};
use crate::hal::traits::{BoardCapability, BoardError, SequentBoard};
use crate::health::{HealthStats, HealthView};
use crate::i2c_recovery::{I2cWatchdog, I2cWatchdogView};
use crate::registers::OPTO_CHANNELS;

verus! {

/// Settings of the poll loop.
#[derive(Debug, Clone, Copy)]
pub struct PollConfig {
    /// Copy the opto-input bitmask to holding register 15.
    pub map_opto: bool,
    /// Heartbeat log interval in seconds.
    pub log_interval: u64,
    /// Consecutive I²C failures before a bus recovery (0 = disabled).
    pub i2c_reset_threshold: u32,
    /// Consecutive per-channel failures before FAULT (0 = disabled).
    pub channel_fault_threshold: u32,
    /// Poll ticks between relay read-back checks (0 = disabled).
    pub relay_verify_interval: u32,
}

/// Abstract state of the poll loop.
pub struct PollView {
    pub watchdog: I2cWatchdogView,
    pub channels: WatchdogView,
    pub tick_count: u32,
}

/// What the rest of a tick does after a bus recovery.
#[derive(Debug, Clone, Copy, PartialEq, Eq, Structural)]
pub enum AfterRecovery {
    /// Re-open the boards and end the tick.
    ReopenAndEndTick,
    /// Go on with the write and read-back phases.
    ContinueTick,
}

/// A call the poll phases made on a registered board.
pub enum BoardCall {
    /// `poll_inputs` on board `board`: the bank before and after the call,
    /// and whether it succeeded.
    Poll { board: usize, before: DataBank, after: DataBank, ok: bool },
    /// `apply_outputs` on board `board` with the bank `db`, and whether it
    /// succeeded.
    Apply { board: usize, db: DataBank, ok: bool },
    /// `read_relay_state` on board `board`: the value read, or `None` when
    /// the read failed.
    ReadBack { board: usize, actual: Option<u16> },
    /// `expected_relay_bitmask` on board `board` and its answer.
    Expected { board: usize, mask: u16 },
    /// `has_confirmed_relay(relay)` on board `board` and its answer.
    Confirmed { board: usize, relay: usize, answer: bool },
    /// `invalidate_relay(relay)` on board `board`.
    Invalidate { board: usize, relay: usize },
}

/// The calls `c1` are `c0` followed by one `poll_inputs` call per board,
/// in board order, with the outcomes of `errs`; board `i` was handed the
/// bank `dbs[i]` and left `dbs[i + 1]`.
pub open spec fn spec_poll_calls(
    c0: Seq<BoardCall>,
    c1: Seq<BoardCall>,
    dbs: Seq<DataBank>,
    errs: Seq<Option<BoardError>>,
) -> bool {
    let n = errs.len() as int;
    let new = c1.subrange(c0.len() as int, c1.len() as int);
    &&& dbs.len() == n + 1
    &&& c1.len() == c0.len() + n
    &&& c1.subrange(0, c0.len() as int) == c0
    &&& forall|i: int|
        0 <= i < n ==> #[trigger] new[i] == (BoardCall::Poll {
            board: i as usize,
            before: dbs[i],
            after: dbs[i + 1],
            ok: errs[i] is None,
        })
}

/// The bank `db1` after the read phase, from the bank `polled` that the
/// last poll left: holding register 15 is replaced when the opto mapping
/// is on, everything else is as polled.
pub open spec fn spec_bank_after_read(polled: DataBank, db1: DataBank, map_opto: bool) -> bool {
    &&& db1.coils == polled.coils
    &&& db1.discrete_inputs == polled.discrete_inputs
    &&& forall|k: int|
        0 <= k < HOLDING_REGISTER_COUNT && (k != 15 || !map_opto) ==> #[trigger] db1.holding_registers@[k]
            == polled.holding_registers@[k]
}

/// The read phase polled every board in order from the bank `db0`, and
/// left `db1` (see [`spec_poll_calls`] and [`spec_bank_after_read`]).
pub open spec fn spec_read_calls(
    c0: Seq<BoardCall>,
    c1: Seq<BoardCall>,
    db0: DataBank,
    db1: DataBank,
    errs: Seq<Option<BoardError>>,
    map_opto: bool,
) -> bool {
    exists|dbs: Seq<DataBank>|
        #[trigger] spec_poll_calls(c0, c1, dbs, errs) && dbs[0] == db0 && spec_bank_after_read(
            dbs.last(),
            db1,
            map_opto,
        )
}

/// The calls `c1` are `c0` followed by one `apply_outputs` call per board,
/// in board order, each with the bank `db`, with the outcomes of `errs`.
pub open spec fn spec_apply_calls(
    c0: Seq<BoardCall>,
    c1: Seq<BoardCall>,
    db: DataBank,
    errs: Seq<Option<BoardError>>,
) -> bool {
    let n = errs.len() as int;
    let new = c1.subrange(c0.len() as int, c1.len() as int);
    &&& c1.len() == c0.len() + n
    &&& c1.subrange(0, c0.len() as int) == c0
    &&& forall|i: int|
        0 <= i < n ==> #[trigger] new[i] == (BoardCall::Apply {
            board: i as usize,
            db: db,
            ok: errs[i] is None,
        })
}

/// Watchdogs and tick counter carried from one poll tick to the next,
/// and a record of the calls made on the boards.
pub struct PollState {
    watchdog: I2cWatchdog,
    ch_wd: ChannelWatchdog,
    tick_count: u32,
    calls: Ghost<Seq<BoardCall>>,
}

impl View for PollState {
    type V = PollView;

    closed spec fn view(&self) -> PollView {
        PollView { watchdog: self.watchdog@, channels: self.ch_wd@, tick_count: self.tick_count }
    }
}

/// One more outcome for the bus watchdog: a success resets the failure
/// count, a failure raises it (the count stops at `u32::MAX`).
pub open spec fn spec_watchdog_step(v: I2cWatchdogView, ok: bool) -> I2cWatchdogView {
    if ok {
        I2cWatchdogView { consecutive_failures: 0, ..v }
    } else if v.consecutive_failures < u32::MAX {
        I2cWatchdogView { consecutive_failures: (v.consecutive_failures + 1) as u32, ..v }
    } else {
        v
    }
}

/// The bus watchdog after the per-board outcomes `oks`, in order.
pub open spec fn spec_watchdog_after(v: I2cWatchdogView, oks: Seq<bool>) -> I2cWatchdogView
    decreases oks.len(),
{
    if oks.len() == 0 {
        v
    } else {
        spec_watchdog_step(spec_watchdog_after(v, oks.drop_last()), oks.last())
    }
}

/// Per-board success flags of a phase's error list.
pub open spec fn spec_oks(errs: Seq<Option<BoardError>>) -> Seq<bool> {
    errs.map_values(|e: Option<BoardError>| e is None)
}

/// Number of failed boards in a phase's error list.
pub open spec fn spec_error_count(errs: Seq<Option<BoardError>>) -> nat
    decreases errs.len(),
{
    if errs.len() == 0 {
        0
    } else {
        spec_error_count(errs.drop_last()) + if errs.last() is Some {
            1nat
        } else {
            0nat
        }
    }
}

/// A 64-bit counter after `n` wrapping increments.
pub open spec fn spec_wrap64(x: u64, n: nat) -> u64 {
    ((x + n) % 0x1_0000_0000_0000_0000int) as u64
}

/// A 32-bit counter after `n` wrapping increments.
pub open spec fn spec_wrap32(x: u32, n: nat) -> u32 {
    ((x + n) % 0x1_0000_0000int) as u32
}

/// One channel failure; the count stops at `u32::MAX`.
pub open spec fn spec_channel_failure(w: WatchdogView, ch: Channel) -> WatchdogView {
    if w.failures[spec_idx(ch)] < u32::MAX {
        spec_after_failure(w, ch)
    } else {
        w
    }
}

/// Every channel, in order, records the same outcome.
pub open spec fn spec_all_channels(w: WatchdogView, ok: bool) -> WatchdogView {
    if ok {
        spec_after_success(
            spec_after_success(
                spec_after_success(spec_after_success(w, Channel::Ma), Channel::Volt),
                Channel::Psu,
            ),
            Channel::Opto,
        )
    } else {
        spec_channel_failure(
            spec_channel_failure(
                spec_channel_failure(spec_channel_failure(w, Channel::Ma), Channel::Volt),
                Channel::Psu,
            ),
            Channel::Opto,
        )
    }
}

/// The opto bitmask of the discrete inputs: bit `i` = input `i` (i < 8).
pub open spec fn spec_opto_bit(di: Seq<bool>, b: int) -> bool {
    0 <= b < OPTO_CHANNELS && di[b]
}

/// Whether bus recovery is due: the bus watchdog reached an enabled
/// threshold, or every channel is in FAULT.
pub open spec fn spec_recovery_needed(v: PollView, threshold: u32) -> bool {
    (v.watchdog.consecutive_failures >= threshold && threshold > 0) || spec_all_faulted(v.channels)
}

/// Whether tick `tick` is a relay read-back tick.
pub open spec fn spec_verify_due(tick: u32, interval: u32, relay_count: usize) -> bool {
    interval > 0 && relay_count > 0 && tick % interval == 0
}

/// One relay read-back: the relay count the board reported, the expected
/// and actual bitmasks, and the bits that disagree on confirmed relays.
#[derive(Debug, Clone, Copy)]
pub struct RelayCheck {
    pub relay_count: usize,
    pub expected: u16,
    pub actual: u16,
    pub mismatch: u16,
}

/// The outcome of a relay read-back of one board.
#[derive(Debug)]
pub struct RelayReport {
    /// Index of the board in the registry.
    pub index: usize,
    pub result: Result<RelayCheck, BoardError>,
}

/// Number of reports whose check found a mismatch.
pub open spec fn spec_mismatch_count(rs: Seq<RelayReport>) -> nat
    decreases rs.len(),
{
    if rs.len() == 0 {
        0
    } else {
        spec_mismatch_count(rs.drop_last()) + if rs.last().result matches Ok(c) && c.mismatch != 0 {
            1nat
        } else {
            0nat
        }
    }
}

/// Number of reports whose read-back failed.
pub open spec fn spec_report_error_count(rs: Seq<RelayReport>) -> nat
    decreases rs.len(),
{
    if rs.len() == 0 {
        0
    } else {
        spec_report_error_count(rs.drop_last()) + if rs.last().result is Err {
            1nat
        } else {
            0nat
        }
    }
}

/// Relays checked on a board that reports `relay_count` relays: those
/// below the count and below 16.
pub open spec fn spec_relay_limit(relay_count: usize) -> nat {
    if relay_count < 16 {
        relay_count as nat
    } else {
        16
    }
}

/// Whether relay `b`'s actual and expected states differ.
pub open spec fn spec_relay_differs(actual: u16, expected: u16, b: int) -> bool {
    word_bit(actual, b) != word_bit(expected, b)
}

/// A read-back check is consistent: every mismatch bit is a relay below
/// the limit whose actual and expected states differ (which of those are
/// confirmed the board answered, see [`spec_confirm_calls`]).
pub open spec fn spec_check_consistent(c: RelayCheck) -> bool {
    forall|b: int|
        0 <= b < 16 ==> (#[trigger] word_bit(c.mismatch, b) ==> b < spec_relay_limit(c.relay_count)
            && spec_relay_differs(c.actual, c.expected, b))
}

/// The `has_confirmed_relay` calls of a read-back of board `board`: one
/// per relay below `n` whose states differ, in ascending order, each
/// answered by the relay's bit of `mismatch`.
pub open spec fn spec_confirm_calls(
    board: usize,
    actual: u16,
    expected: u16,
    mismatch: u16,
    n: nat,
) -> Seq<BoardCall>
    decreases n,
{
    if n == 0 {
        Seq::empty()
    } else {
        let prev = spec_confirm_calls(board, actual, expected, mismatch, (n - 1) as nat);
        let b = n - 1;
        if spec_relay_differs(actual, expected, b) {
            prev.push(BoardCall::Confirmed { board, relay: b as usize, answer: word_bit(mismatch, b) })
        } else {
            prev
        }
    }
}

/// The `invalidate_relay` calls on board `board` for the bits of `mask`
/// below `n`, in ascending order.
pub open spec fn spec_invalidate_calls(board: usize, mask: u16, n: nat) -> Seq<BoardCall>
    decreases n,
{
    if n == 0 {
        Seq::empty()
    } else {
        let prev = spec_invalidate_calls(board, mask, (n - 1) as nat);
        let b = n - 1;
        if word_bit(mask, b) {
            prev.push(BoardCall::Invalidate { board, relay: b as usize })
        } else {
            prev
        }
    }
}

/// The calls of the read-back of one board: the read and, when it
/// succeeded, the expected bitmask, the confirmation of each differing
/// relay and the invalidation of each mismatching one.
pub open spec fn spec_report_calls(r: RelayReport) -> Seq<BoardCall> {
    match r.result {
        Ok(c) => seq![
            BoardCall::ReadBack { board: r.index, actual: Some(c.actual) },
            BoardCall::Expected { board: r.index, mask: c.expected },
        ] + spec_confirm_calls(r.index, c.actual, c.expected, c.mismatch, spec_relay_limit(c.relay_count))
            + spec_invalidate_calls(r.index, c.mismatch, spec_relay_limit(c.relay_count)),
        Err(_) => seq![BoardCall::ReadBack { board: r.index, actual: None }],
    }
}

/// The calls of the read-backs `rs`, in order.
pub open spec fn spec_reports_calls(rs: Seq<RelayReport>) -> Seq<BoardCall>
    decreases rs.len(),
{
    if rs.len() == 0 {
        Seq::empty()
    } else {
        spec_reports_calls(rs.drop_last()) + spec_report_calls(rs.last())
    }
}

/// Holding register 24 after the reports `rs`, from the value `v`: the
/// actual bitmask of the last successful read-back.
pub open spec fn spec_last_readback(rs: Seq<RelayReport>, v: u16) -> u16
    decreases rs.len(),
{
    if rs.len() == 0 {
        v
    } else {
        match rs.last().result {
            Ok(c) => c.actual,
            Err(_) => spec_last_readback(rs.drop_last(), v),
        }
    }
}

/// The reports `rs` cover exactly the boards among the first `upto` of
/// `boards` that list relays, one report each, in board order.
pub open spec fn spec_relay_boards_reported(
    boards: Seq<Box<dyn SequentBoard>>,
    rs: Seq<RelayReport>,
    upto: int,
) -> bool {
    &&& forall|k: int, l: int|
        0 <= k < l < rs.len() ==> #[trigger] rs[k].index < #[trigger] rs[l].index
    &&& forall|k: int|
        0 <= k < rs.len() ==> #[trigger] rs[k].index < upto && boards[rs[k].index as int].capability_list().contains(
            BoardCapability::Relays,
        )
    &&& forall|j: int|
        0 <= j < upto && #[trigger] boards[j].capability_list().contains(BoardCapability::Relays)
            ==> exists|k: int| 0 <= k < rs.len() && #[trigger] rs[k].index == j
}

proof fn lemma_xor_bit(a: u16, e: u16, b: u16)
    requires
        b < 16,
    ensures
        ((a ^ e) >> b) & 1u16 == 1u16 <==> (((a >> b) & 1u16 == 1u16) != ((e >> b) & 1u16 == 1u16)),
{
    assert(((a ^ e) >> b) & 1u16 == 1u16 <==> (((a >> b) & 1u16 == 1u16) != ((e >> b) & 1u16
        == 1u16))) by (bit_vector)
        requires
            b < 16,
    ;
}

proof fn lemma_wrap64_step(x: u64, n: nat, ok: bool)
    ensures
        (spec_wrap64(x, n) + if ok {
            0int
        } else {
            1int
        }) % 0x1_0000_0000_0000_0000int == spec_wrap64(x, n + if ok {
            0nat
        } else {
            1nat
        }),
{
    let m = 0x1_0000_0000_0000_0000int;
    let d: int = if ok {
        0
    } else {
        1
    };
    vstd::arithmetic::div_mod::lemma_add_mod_noop(x + n, d, m);
    assert(d % m == d);
}

proof fn lemma_wrap32_step(x: u32, n: nat, hit: bool)
    ensures
        (spec_wrap32(x, n) + if hit {
            1int
        } else {
            0int
        }) % 0x1_0000_0000int == spec_wrap32(x, n + if hit {
            1nat
        } else {
            0nat
        }),
{
    let m = 0x1_0000_0000int;
    let d: int = if hit {
        1
    } else {
        0
    };
    vstd::arithmetic::div_mod::lemma_add_mod_noop(x + n, d, m);
    assert(d % m == d);
}

/// The confirmation calls depend only on the bits of the mismatch below
/// `n`.
proof fn lemma_confirm_calls_agree(
    board: usize,
    actual: u16,
    expected: u16,
    m1: u16,
    m2: u16,
    n: nat,
)
    requires
        forall|c: int| 0 <= c < n ==> word_bit(m1, c) == word_bit(m2, c),
    ensures
        spec_confirm_calls(board, actual, expected, m1, n) == spec_confirm_calls(
            board,
            actual,
            expected,
            m2,
            n,
        ),
    decreases n,
{
    if n > 0 {
        lemma_confirm_calls_agree(board, actual, expected, m1, m2, (n - 1) as nat);
        assert(word_bit(m1, n - 1) == word_bit(m2, n - 1));
    }
}

impl PollState {
    /// Fresh watchdogs with the configured thresholds; tick 0.
    pub fn new(config: &PollConfig) -> (s: Self)
        ensures
            s@.watchdog == (I2cWatchdogView {
                consecutive_failures: 0,
                threshold: config.i2c_reset_threshold,
                recovery_count: 0,
            }),
            s@.channels.failures == seq![0u32, 0u32, 0u32, 0u32],
            s@.channels.faulted == seq![false, false, false, false],
            s@.channels.fault_threshold == config.channel_fault_threshold,
            s@.tick_count == 0,
            s.board_calls() == Seq::<BoardCall>::empty(),
    {
        PollState {
            watchdog: I2cWatchdog::new(config.i2c_reset_threshold),
            ch_wd: ChannelWatchdog::new(config.channel_fault_threshold),
            tick_count: 0,
            calls: Ghost(Seq::empty()),
        }
    }

    /// The calls the poll phases have made on the registered boards, oldest
    /// first.
    pub closed spec fn board_calls(&self) -> Seq<BoardCall> {
        self.calls@
    }

    /// The bus watchdog.
    pub fn watchdog(&self) -> (w: &I2cWatchdog)
        ensures
            w@ == self@.watchdog,
    {
        &self.watchdog
    }

    /// The channel watchdog.
    pub fn channel_watchdog(&self) -> (w: &ChannelWatchdog)
        ensures
            w@ == self@.channels,
    {
        &self.ch_wd
    }

    fn record_bus_outcome(&mut self, ok: bool)
        ensures
            final(self).board_calls() == old(self).board_calls(),
            final(self)@ == (PollView {
                watchdog: spec_watchdog_step(old(self)@.watchdog, ok),
                ..old(self)@
            }),
    {
        if ok {
            self.watchdog.record_success();
        } else if self.watchdog.consecutive_failures() < u32::MAX {
            self.watchdog.record_failure();
        }
    }

    fn record_all_channels(&mut self, ok: bool)
        ensures
            final(self).board_calls() == old(self).board_calls(),
            final(self)@ == (PollView {
                channels: spec_all_channels(old(self)@.channels, ok),
                ..old(self)@
            }),
    {
        let all = Channel::all();
        if ok {
            self.ch_wd.record_success(all[0]);
            self.ch_wd.record_success(all[1]);
            self.ch_wd.record_success(all[2]);
            self.ch_wd.record_success(all[3]);
        } else {
            self.channel_failure(all[0]);
            self.channel_failure(all[1]);
            self.channel_failure(all[2]);
            self.channel_failure(all[3]);
        }
    }

    fn channel_failure(&mut self, ch: Channel)
        ensures
            final(self).board_calls() == old(self).board_calls(),
            final(self)@ == (PollView {
                channels: spec_channel_failure(old(self)@.channels, ch),
                ..old(self)@
            }),
    {
        if self.ch_wd.failure_count(ch) < u32::MAX {
            self.ch_wd.record_failure(ch);
        }
    }

    /// Poll the inputs of every registered board, in order, and update the
    /// watchdogs: per board a success resets and a failure raises the bus
    /// failure count and counts an I²C error; when some board reports
    /// analog inputs, every channel records success if all boards polled
    /// and failure otherwise.  With `map_opto`, holding register 15 then
    /// receives the opto bitmask of discrete inputs 0–7.  Returns each
    /// board's error (`None` for a successful poll).
    pub fn read_phase(
        &mut self,
        registry: &mut BoardRegistry,
        db: &mut DataBank,
        health: &mut HealthStats,
        map_opto: bool,
    ) -> (errs: Vec<Option<BoardError>>)
        ensures
            final(registry)@ == old(registry)@,
            final(self)@.watchdog == spec_watchdog_after(old(self)@.watchdog, spec_oks(errs@)),
            final(self)@.tick_count == old(self)@.tick_count,
            final(self)@.channels == if exists|i: int|
                0 <= i < old(registry)@.len() && #[trigger] old(registry)@[i].capabilities.contains(
                    BoardCapability::AnalogInputs,
                ) {
                spec_all_channels(old(self)@.channels, spec_error_count(errs@) == 0)
            } else {
                old(self)@.channels
            },
            final(health)@ == (HealthView {
                i2c_errors: spec_wrap64(old(health)@.i2c_errors, spec_error_count(errs@)),
                cycle_errors: spec_wrap64(old(health)@.cycle_errors, spec_error_count(errs@)),
                ..old(health)@
            }),
            map_opto ==> forall|b: int|
                0 <= b < 16 ==> #[trigger] word_bit(final(db).holding_registers@[15], b)
                    == spec_opto_bit(final(db).discrete_inputs@, b),
            errs@.len() == old(registry).board_objects().len(),
            final(registry).board_objects().len() == old(registry).board_objects().len(),
            spec_error_count(errs@) == 0 && (exists|i: int|
                0 <= i < old(registry)@.len() && #[trigger] old(registry)@[i].capabilities.contains(
                    BoardCapability::AnalogInputs,
                )) ==> forall|k: int|
                0 <= k < 4 ==> #[trigger] final(self)@.channels.failures[k] == 0
                    && !final(self)@.channels.faulted[k],
            spec_read_calls(
                old(self).board_calls(),
                final(self).board_calls(),
                *old(db),
                *final(db),
                errs@,
                map_opto,
            ),
    {
        let ghost w0 = self@.watchdog;
        let ghost h0 = health@;
        let ghost reg0 = registry@;
        let mut errs: Vec<Option<BoardError>> = Vec::new();
        let mut any_failure = false;
        let ghost c0 = self.calls@;
        let ghost db0 = *db;
        let ghost mut dbs: Seq<DataBank> = seq![db0];
        assert(c0.subrange(0, c0.len() as int) =~= c0);
        assert(spec_poll_calls(c0, self.calls@, dbs, errs@));
        let boards = registry.boards_mut();
            let n = boards.len();
            let mut i: usize = 0;
            while i < n
                invariant
                    spec_poll_calls(c0, self.calls@, dbs, errs@),
                    dbs[0] == db0,
                    dbs.last() == *db,
                    n == boards@.len(),
                    i <= n,
                    errs@.len() == i,
                    self@.watchdog == spec_watchdog_after(w0, spec_oks(errs@)),
                    self@.tick_count == old(self)@.tick_count,
                    self@.channels == old(self)@.channels,
                    health@ == (HealthView {
                        i2c_errors: spec_wrap64(h0.i2c_errors, spec_error_count(errs@)),
                        cycle_errors: spec_wrap64(h0.cycle_errors, spec_error_count(errs@)),
                        ..h0
                    }),
                    any_failure == (spec_error_count(errs@) > 0),
                decreases n - i,
            {
                let ghost before = errs@;
                let ghost db_before = *db;
                let ghost calls_before = self.calls@;
                let r = boards[i].poll_inputs(db);
                let ok = r.is_ok();
                proof {
                    self.calls@ = self.calls@.push(
                        BoardCall::Poll { board: i, before: db_before, after: *db, ok },
                    );
                }
                self.record_bus_outcome(ok);
                match r {
                    Ok(()) => {
                        errs.push(None);
                    },
                    Err(e) => {
                        health.inc_i2c_errors();
                        any_failure = true;
                        errs.push(Some(e));
                    },
                }
                proof {
                    assert(errs@.drop_last() =~= before);
                    assert(spec_oks(errs@).drop_last() =~= spec_oks(before));
                    assert(spec_oks(errs@).last() == ok);
                    lemma_wrap64_step(h0.i2c_errors, spec_error_count(before), ok);
                    let dbs1 = dbs.push(*db);
                    let new0 = calls_before.subrange(c0.len() as int, calls_before.len() as int);
                    let new1 = self.calls@.subrange(c0.len() as int, self.calls@.len() as int);
                    assert(new1 =~= new0.push(BoardCall::Poll { board: i, before: db_before, after: *db, ok }));
                    assert(self.calls@.subrange(0, c0.len() as int) =~= calls_before.subrange(0, c0.len() as int));
                    assert forall|k: int| 0 <= k < i + 1 implies #[trigger] new1[k] == (BoardCall::Poll {
                        board: k as usize,
                        before: dbs1[k],
                        after: dbs1[k + 1],
                        ok: errs@[k] is None,
                    }) by {
                        if k < i {
                            assert(new0[k] == (BoardCall::Poll {
                                board: k as usize,
                                before: dbs[k],
                                after: dbs[k + 1],
                                ok: before[k] is None,
                            }));
                            assert(errs@[k] == before[k]);
                        }
                    }
                    assert(spec_poll_calls(c0, self.calls@, dbs1, errs@));
                    dbs = dbs1;
                }
                i += 1;
            }
        assert(registry@ == reg0);
        let ghost polled = *db;
        proof {
            crate::channel_watchdog::lemma_four_channels(self.ch_wd);
            lemma_all_channels_outcome(self.ch_wd@);
        }
        if registry.has_capability(BoardCapability::AnalogInputs) {
            self.record_all_channels(!any_failure);
        }
        if map_opto {
            let mut bitmask: u16 = 0;
            proof {
                assert forall|b: int| 0 <= b < 16 implies !#[trigger] word_bit(0u16, b) by {
                    crate::cache::lemma_zero_bit16(b as u16);
                }
            }
            let mut i: usize = 0;
            while i < OPTO_CHANNELS
                invariant
                    i <= OPTO_CHANNELS,
                    OPTO_CHANNELS <= DISCRETE_INPUT_COUNT,
                    forall|b: int|
                        0 <= b < 16 ==> #[trigger] word_bit(bitmask, b) == (b < i
                            && db.discrete_inputs@[b]),
                decreases OPTO_CHANNELS - i,
            {
                if db.discrete_inputs[i] {
                    let old_mask = bitmask;
                    bitmask = bitmask | (1u16 << (i as u16));
                    proof {
                        assert forall|b: int| 0 <= b < 16 implies #[trigger] word_bit(bitmask, b)
                            == (b < i + 1 && db.discrete_inputs@[b]) by {
                            crate::cache::lemma_set_bit16(old_mask, i as u16, b as u16);
                            assert(word_bit(old_mask, b) == (b < i && db.discrete_inputs@[b]));
                        }
                    }
                }
                i += 1;
            }
            db.holding_registers[15] = bitmask;
        }
        assert(spec_bank_after_read(polled, *db, map_opto));
        assert(spec_read_calls(c0, self.calls@, db0, *db, errs@, map_opto));
        errs
    }

    /// Whether bus recovery is due for the reset `threshold`.
    pub fn recovery_needed(&self, threshold: u32) -> (b: bool)
        ensures
            b == spec_recovery_needed(self@, threshold),
    {
        (self.watchdog.consecutive_failures() >= threshold && threshold > 0)
            || self.ch_wd.all_faulted()
    }

    /// Book a bus recovery whose outcome (`recovered`) the caller observed:
    /// the failure count resets and the recovery count grows (it stops at
    /// `u32::MAX`).  After a successful recovery the boards are re-opened
    /// and the tick ends there, without the write and read-back phases;
    /// after a failed one the tick goes on.
    pub fn book_recovery(&mut self, recovered: bool) -> (r: AfterRecovery)
        ensures
            final(self).board_calls() == old(self).board_calls(),
            r == if recovered {
                AfterRecovery::ReopenAndEndTick
            } else {
                AfterRecovery::ContinueTick
            },
            final(self)@ == (PollView {
                watchdog: I2cWatchdogView {
                    consecutive_failures: 0,
                    recovery_count: if old(self)@.watchdog.recovery_count < u32::MAX {
                        (old(self)@.watchdog.recovery_count + 1) as u32
                    } else {
                        u32::MAX
                    },
                    ..old(self)@.watchdog
                },
                ..old(self)@
            }),
    {
        let ok = if self.watchdog.recovery_count() < u32::MAX {
            self.watchdog.attempt_recovery(recovered)
        } else {
            self.watchdog.record_success();
            recovered
        };
        if ok {
            AfterRecovery::ReopenAndEndTick
        } else {
            AfterRecovery::ContinueTick
        }
    }

    /// Apply the outputs of every registered board, in order; each failure
    /// counts an I²C error.  Returns each board's error (`None` on success).
    pub fn write_phase(
        &mut self,
        registry: &mut BoardRegistry,
        db: &DataBank,
        health: &mut HealthStats,
    ) -> (errs: Vec<Option<BoardError>>)
        ensures
            final(registry)@ == old(registry)@,
            errs@.len() == old(registry).board_objects().len(),
            final(registry).board_objects().len() == old(registry).board_objects().len(),
            spec_apply_calls(old(self).board_calls(), final(self).board_calls(), *db, errs@),
            final(self)@ == old(self)@,
            final(health)@ == (HealthView {
                i2c_errors: spec_wrap64(old(health)@.i2c_errors, spec_error_count(errs@)),
                cycle_errors: spec_wrap64(old(health)@.cycle_errors, spec_error_count(errs@)),
                ..old(health)@
            }),
    {
        let ghost h0 = health@;
        let mut errs: Vec<Option<BoardError>> = Vec::new();
        let ghost c0 = self.calls@;
        assert(c0.subrange(0, c0.len() as int) =~= c0);
        let boards = registry.boards_mut();
        let n = boards.len();
        let mut i: usize = 0;
        while i < n
            invariant
                spec_apply_calls(c0, self.calls@, *db, errs@),
                self@ == old(self)@,
                n == boards@.len(),
                i <= n,
                errs@.len() == i,
                health@ == (HealthView {
                    i2c_errors: spec_wrap64(h0.i2c_errors, spec_error_count(errs@)),
                    cycle_errors: spec_wrap64(h0.cycle_errors, spec_error_count(errs@)),
                    ..h0
                }),
            decreases n - i,
        {
            let ghost before = errs@;
            let ghost calls_before = self.calls@;
            let r = boards[i].apply_outputs(db);
            let ok = r.is_ok();
            proof {
                self.calls@ = self.calls@.push(BoardCall::Apply { board: i, db: *db, ok });
            }
            match r {
                Ok(()) => {
                    errs.push(None);
                },
                Err(e) => {
                    health.inc_i2c_errors();
                    errs.push(Some(e));
                },
            }
            proof {
                assert(errs@.drop_last() =~= before);
                lemma_wrap64_step(h0.i2c_errors, spec_error_count(before), ok);
                let new0 = calls_before.subrange(c0.len() as int, calls_before.len() as int);
                let new1 = self.calls@.subrange(c0.len() as int, self.calls@.len() as int);
                assert(new1 =~= new0.push(BoardCall::Apply { board: i, db: *db, ok }));
                assert(self.calls@.subrange(0, c0.len() as int) =~= calls_before.subrange(0, c0.len() as int));
                assert forall|k: int| 0 <= k < i + 1 implies #[trigger] new1[k] == (BoardCall::Apply {
                    board: k as usize,
                    db: *db,
                    ok: errs@[k] is None,
                }) by {
                    if k < i {
                        assert(new0[k] == (BoardCall::Apply { board: k as usize, db: *db, ok: before[k] is None }));
                        assert(errs@[k] == before[k]);
                    }
                }
            }
            i += 1;
        }
        errs
    }

    /// Read back the relays of board `i`: its relay count, the actual
    /// state and, when that read succeeds, the expected state; ask the
    /// board whether each differing relay below the limit is confirmed;
    /// count a mismatch once, invalidate the mismatching relays and store
    /// the actual bitmask in holding register 24.  A failed read counts an
    /// I²C error.
    fn check_board(
        &mut self,
        boards: &mut [Box<dyn SequentBoard>],
        i: usize,
        db: &mut DataBank,
        health: &mut HealthStats,
    ) -> (r: RelayReport)
        requires
            i < old(boards)@.len(),
        ensures
            final(boards)@.len() == old(boards)@.len(),
            forall|j: int|
                0 <= j < old(boards)@.len() && j != i ==> #[trigger] final(boards)@[j] == old(boards)@[j],
            r.index == i,
            r.result matches Ok(c) ==> spec_check_consistent(c),
            final(self).board_calls() == old(self).board_calls() + spec_report_calls(r),
            final(self)@ == old(self)@,
            final(health)@ == (HealthView {
                i2c_errors: spec_wrap64(
                    old(health)@.i2c_errors,
                    if r.result is Err {
                        1nat
                    } else {
                        0nat
                    },
                ),
                cycle_errors: spec_wrap64(
                    old(health)@.cycle_errors,
                    if r.result is Err {
                        1nat
                    } else {
                        0nat
                    },
                ),
                relay_mismatches: spec_wrap32(
                    old(health)@.relay_mismatches,
                    if r.result matches Ok(c) && c.mismatch != 0 {
                        1nat
                    } else {
                        0nat
                    },
                ),
                ..old(health)@
            }),
            forall|k: int|
                0 <= k < HOLDING_REGISTER_COUNT && k != HR_RELAY_READBACK ==> #[trigger] final(db).holding_registers@[k]
                    == old(db).holding_registers@[k],
            final(db).holding_registers@[HR_RELAY_READBACK as int] == match r.result {
                Ok(c) => c.actual,
                Err(_) => old(db).holding_registers@[HR_RELAY_READBACK as int],
            },
            final(db).coils == old(db).coils,
            final(db).discrete_inputs == old(db).discrete_inputs,
    {
        let ghost c0 = self.calls@;
        let board_relays = boards[i].relay_count();
        let limit: usize = if board_relays < 16 {
            board_relays
        } else {
            16
        };
        match boards[i].read_relay_state() {
            Err(e) => {
                proof {
                    self.calls@ = self.calls@.push(BoardCall::ReadBack { board: i, actual: None });
                }
                health.inc_i2c_errors();
                let r = RelayReport { index: i, result: Err(e) };
                proof {
                    assert(self.calls@ =~= c0 + spec_report_calls(r));
                }
                r
            },
            Ok(actual) => {
                proof {
                    self.calls@ = self.calls@.push(
                        BoardCall::ReadBack { board: i, actual: Some(actual) },
                    );
                }
                let expected = boards[i].expected_relay_bitmask();
                proof {
                    self.calls@ = self.calls@.push(BoardCall::Expected { board: i, mask: expected });
                }
                let ghost c1 = self.calls@;
                let diff = actual ^ expected;
                let mut mismatch: u16 = 0;
                proof {
                    assert forall|b: int| 0 <= b < 16 implies !#[trigger] word_bit(0u16, b) by {
                        crate::cache::lemma_zero_bit16(b as u16);
                    }
                    assert(self.calls@ =~= c1 + spec_confirm_calls(i, actual, expected, 0u16, 0));
                }
                let mut b: usize = 0;
                while b < limit
                    invariant
                        i < boards@.len(),
                        boards@.len() == old(boards)@.len(),
                        forall|j: int|
                            0 <= j < old(boards)@.len() && j != i ==> #[trigger] boards@[j] == old(
                                boards,
                            )@[j],
                        limit == spec_relay_limit(board_relays),
                        limit <= 16,
                        b <= limit,
                        diff == actual ^ expected,
                        forall|c: int|
                            0 <= c < 16 ==> (#[trigger] word_bit(mismatch, c) ==> c < b
                                && spec_relay_differs(actual, expected, c)),
                        self.calls@ == c1 + spec_confirm_calls(i, actual, expected, mismatch, b as nat),
                        self@ == old(self)@,
                    decreases limit - b,
                {
                    proof {
                        lemma_xor_bit(actual, expected, b as u16);
                    }
                    let ghost calls_before = self.calls@;
                    if (diff >> (b as u16)) & 1u16 == 1u16 {
                        let confirmed = boards[i].has_confirmed_relay(b);
                        let old_m = mismatch;
                        if confirmed {
                            mismatch = mismatch | (1u16 << (b as u16));
                        }
                        proof {
                            assert forall|c: int|
                                0 <= c < 16 implies (#[trigger] word_bit(mismatch, c) == (word_bit(
                                old_m,
                                c,
                            ) || (confirmed && c == b))) by {
                                if confirmed {
                                    crate::cache::lemma_set_bit16(old_m, b as u16, c as u16);
                                }
                            }
                            lemma_confirm_calls_agree(i, actual, expected, old_m, mismatch, b as nat);
                            self.calls@ = self.calls@.push(
                                BoardCall::Confirmed { board: i, relay: b, answer: confirmed },
                            );
                            assert(word_bit(mismatch, b as int) == confirmed);
                            assert(self.calls@ =~= c1 + spec_confirm_calls(
                                i,
                                actual,
                                expected,
                                mismatch,
                                (b + 1) as nat,
                            ));
                        }
                    } else {
                        proof {
                            assert(self.calls@ =~= c1 + spec_confirm_calls(
                                i,
                                actual,
                                expected,
                                mismatch,
                                (b + 1) as nat,
                            ));
                        }
                    }
                    b += 1;
                }
                if mismatch != 0 {
                    health.inc_relay_mismatches();
                }
                let ghost c2 = self.calls@;
                proof {
                    assert(self.calls@ =~= c2 + spec_invalidate_calls(i, mismatch, 0));
                }
                let mut b: usize = 0;
                while b < limit
                    invariant
                        i < boards@.len(),
                        boards@.len() == old(boards)@.len(),
                        forall|j: int|
                            0 <= j < old(boards)@.len() && j != i ==> #[trigger] boards@[j] == old(
                                boards,
                            )@[j],
                        limit <= 16,
                        b <= limit,
                        self.calls@ == c2 + spec_invalidate_calls(i, mismatch, b as nat),
                        self@ == old(self)@,
                    decreases limit - b,
                {
                    if (mismatch >> (b as u16)) & 1u16 == 1u16 {
                        boards[i].invalidate_relay(b);
                        proof {
                            self.calls@ = self.calls@.push(BoardCall::Invalidate { board: i, relay: b });
                        }
                    }
                    proof {
                        assert(self.calls@ =~= c2 + spec_invalidate_calls(i, mismatch, (b + 1) as nat));
                    }
                    b += 1;
                }
                db.holding_registers[HR_RELAY_READBACK] = actual;
                let r = RelayReport {
                    index: i,
                    result: Ok(RelayCheck { relay_count: board_relays, expected, actual, mismatch }),
                };
                proof {
                    assert(self.calls@ =~= c0 + spec_report_calls(r));
                }
                r
            },
        }
    }

    /// Advance the tick counter (wrapping) and, on a read-back tick (every
    /// `interval`-th, when `interval` and `relay_count` are non-zero), read
    /// back every board that lists relays, in board order (see
    /// [`PollState::check_board`]): a board's mismatch is the set of
    /// relays below its count (and below 16) whose actual and expected
    /// states differ and which the board reports confirmed; a mismatch
    /// counts once and invalidates exactly those relays; the actual bitmask
    /// of the last successful read goes to holding register 24; a failed
    /// read counts an I²C error.  Returns the reports, one per relay board.
    pub fn verify_phase(
        &mut self,
        registry: &mut BoardRegistry,
        db: &mut DataBank,
        health: &mut HealthStats,
        interval: u32,
        relay_count: usize,
    ) -> (reports: Vec<RelayReport>)
        ensures
            final(registry)@ == old(registry)@,
            final(registry).board_objects().len() == old(registry).board_objects().len(),
            final(self)@ == (PollView {
                tick_count: ((old(self)@.tick_count + 1) % 0x1_0000_0000int) as u32,
                ..old(self)@
            }),
            if spec_verify_due(final(self)@.tick_count, interval, relay_count) {
                spec_relay_boards_reported(
                    old(registry).board_objects(),
                    reports@,
                    old(registry).board_objects().len() as int,
                )
            } else {
                reports@.len() == 0
            },
            forall|k: int|
                0 <= k < reports@.len() ==> (#[trigger] reports@[k].result matches Ok(c)
                    ==> spec_check_consistent(c)),
            final(self).board_calls() == old(self).board_calls() + spec_reports_calls(reports@),
            final(health)@ == (HealthView {
                i2c_errors: spec_wrap64(old(health)@.i2c_errors, spec_report_error_count(reports@)),
                cycle_errors: spec_wrap64(old(health)@.cycle_errors, spec_report_error_count(reports@)),
                relay_mismatches: spec_wrap32(
                    old(health)@.relay_mismatches,
                    spec_mismatch_count(reports@),
                ),
                ..old(health)@
            }),
            forall|k: int|
                0 <= k < HOLDING_REGISTER_COUNT && k != HR_RELAY_READBACK ==> #[trigger] final(db).holding_registers@[k]
                    == old(db).holding_registers@[k],
            final(db).holding_registers@[HR_RELAY_READBACK as int] == spec_last_readback(
                reports@,
                old(db).holding_registers@[HR_RELAY_READBACK as int],
            ),
            final(db).coils == old(db).coils,
            final(db).discrete_inputs == old(db).discrete_inputs,
    {
        self.tick_count = if self.tick_count == u32::MAX {
            0
        } else {
            self.tick_count + 1
        };
        let mut reports: Vec<RelayReport> = Vec::new();
        let ghost c0 = self.calls@;
        proof {
            assert(c0 + spec_reports_calls(reports@) =~= c0);
        }
        if !(interval > 0 && relay_count > 0 && self.tick_count % interval == 0) {
            return reports;
        }
        let ghost h0 = health@;
        let ghost db0 = *db;
        let ghost s1 = self@;
        let boards = registry.boards_mut();
        let ghost b0 = boards@;
        let n = boards.len();
        let mut i: usize = 0;
        while i < n
            invariant
                n == boards@.len(),
                b0.len() == n,
                i <= n,
                forall|j: int| i <= j < n ==> #[trigger] boards@[j] == b0[j],
                spec_relay_boards_reported(b0, reports@, i as int),
                forall|k: int|
                    0 <= k < reports@.len() ==> (#[trigger] reports@[k].result matches Ok(c)
                        ==> spec_check_consistent(c)),
                self.calls@ == c0 + spec_reports_calls(reports@),
                self@ == s1,
                health@ == (HealthView {
                    i2c_errors: spec_wrap64(h0.i2c_errors, spec_report_error_count(reports@)),
                    cycle_errors: spec_wrap64(h0.cycle_errors, spec_report_error_count(reports@)),
                    relay_mismatches: spec_wrap32(h0.relay_mismatches, spec_mismatch_count(reports@)),
                    ..h0
                }),
                forall|k: int|
                    0 <= k < HOLDING_REGISTER_COUNT && k != HR_RELAY_READBACK ==> #[trigger] db.holding_registers@[k]
                        == db0.holding_registers@[k],
                db.holding_registers@[HR_RELAY_READBACK as int] == spec_last_readback(
                    reports@,
                    db0.holding_registers@[HR_RELAY_READBACK as int],
                ),
                db.coils == db0.coils,
                db.discrete_inputs == db0.discrete_inputs,
            decreases n - i,
        {
            let ghost before = reports@;
            let ghost calls_before = self.calls@;
            if boards[i].has_capability(BoardCapability::Relays) {
                let r = self.check_board(boards, i, db, health);
                let ghost rr = r;
                reports.push(r);
                proof {
                    assert(reports@.drop_last() =~= before);
                    assert(reports@.last() == rr);
                    lemma_wrap64_step(h0.i2c_errors, spec_report_error_count(before), rr.result is Ok);
                    lemma_wrap64_step(h0.cycle_errors, spec_report_error_count(before), rr.result is Ok);
                    lemma_wrap32_step(
                        h0.relay_mismatches,
                        spec_mismatch_count(before),
                        rr.result matches Ok(c) && c.mismatch != 0,
                    );
                    assert(self.calls@ =~= c0 + spec_reports_calls(reports@));
                    assert forall|j: int|
                        0 <= j < i + 1 && #[trigger] b0[j].capability_list().contains(
                            BoardCapability::Relays,
                        ) implies exists|k: int|
                        0 <= k < reports@.len() && #[trigger] reports@[k].index == j by {
                        if j == i {
                            assert(reports@[before.len() as int].index == j);
                        } else {
                            let k = choose|k: int| 0 <= k < before.len() && #[trigger] before[k].index == j;
                            assert(reports@[k] == before[k]);
                        }
                    }
                    assert forall|k: int| 0 <= k < reports@.len() implies #[trigger] reports@[k].index
                        < i + 1 && b0[reports@[k].index as int].capability_list().contains(
                        BoardCapability::Relays,
                    ) by {
                        if k < before.len() {
                            assert(reports@[k] == before[k]);
                        }
                    }
                    assert forall|k: int, l: int|
                        0 <= k < l < reports@.len() implies #[trigger] reports@[k].index
                        < #[trigger] reports@[l].index by {
                        assert(reports@[k] == before[k]);
                        if l < before.len() {
                            assert(reports@[l] == before[l]);
                        }
                    }
                }
            }
            i += 1;
        }
        reports
    }

    /// End-of-cycle health update: the cycle time, the channel snapshot
    /// and the recovery count.
    pub fn finish_cycle(&self, health: &mut HealthStats, elapsed_us: u64)
        ensures
            final(health)@ == (HealthView {
                last_cycle_us: elapsed_us,
                last_cycle_errors: old(health)@.cycle_errors,
                cycle_errors: 0,
                channel_status: crate::health::spec_pack_status(self@.channels),
                i2c_recoveries: self@.watchdog.recovery_count,
                ..old(health)@
            }),
    {
        health.set_cycle_time(elapsed_us);
        health.update_channel_status(&self.ch_wd);
        health.set_recovery_count(self.watchdog.recovery_count());
    }
}

/// Number of failures at the end of `oks`, after its last success.
pub open spec fn spec_trailing_failures(oks: Seq<bool>) -> nat
    decreases oks.len(),
{
    if oks.len() == 0 || oks.last() {
        0
    } else {
        spec_trailing_failures(oks.drop_last()) + 1
    }
}

/// Over a sequence of board outcomes the bus watchdog counts consecutive
/// failures across cycles: after outcomes that all failed, the count grew
/// by their number; otherwise it is the number of failures since the last
/// success.  Threshold and recovery count do not change.
pub proof fn lemma_watchdog_counts_trailing_failures(v: I2cWatchdogView, oks: Seq<bool>)
    requires
        v.consecutive_failures + oks.len() <= u32::MAX,
    ensures
        spec_watchdog_after(v, oks).consecutive_failures == if forall|i: int|
            0 <= i < oks.len() ==> !#[trigger] oks[i] {
            v.consecutive_failures + oks.len()
        } else {
            spec_trailing_failures(oks) as int
        },
        spec_watchdog_after(v, oks).threshold == v.threshold,
        spec_watchdog_after(v, oks).recovery_count == v.recovery_count,
        spec_trailing_failures(oks) <= oks.len(),
    decreases oks.len(),
{
    if oks.len() > 0 {
        let prev = oks.drop_last();
        lemma_watchdog_counts_trailing_failures(v, prev);
        if forall|i: int| 0 <= i < oks.len() ==> !#[trigger] oks[i] {
            assert forall|i: int| 0 <= i < prev.len() implies !#[trigger] prev[i] by {
                assert(prev[i] == oks[i]);
            }
            assert(!oks[oks.len() - 1]);
        } else if !oks.last() {
            if forall|i: int| 0 <= i < prev.len() ==> !#[trigger] prev[i] {
                let j = choose|j: int| 0 <= j < oks.len() && oks[j];
                assert(j != oks.len() - 1);
                assert(prev[j] == oks[j]);
            }
            assert(spec_trailing_failures(oks) == spec_trailing_failures(prev) + 1);
        }
    }
}


/// A read phase's outcome reaches all four channels: after a phase in
/// which every board polled, each channel (mA, volt, PSU, opto) has
/// failure count 0 and is out of FAULT; after a phase with a failure,
/// each channel's count grows by one (it stops at `u32::MAX`) and a
/// channel whose count reaches an enabled threshold is in FAULT.  The
/// threshold and the last-known-good values are untouched either way.
pub proof fn lemma_all_channels_outcome(w: WatchdogView)
    requires
        w.failures.len() == 4,
        w.faulted.len() == 4,
    ensures
        forall|i: int|
            0 <= i < 4 ==> (#[trigger] spec_all_channels(w, true).failures[i]) == 0
                && !spec_all_channels(w, true).faulted[i],
        forall|i: int|
            0 <= i < 4 && w.failures[i] < u32::MAX ==> (#[trigger] spec_all_channels(
                w,
                false,
            ).failures[i]) == w.failures[i] + 1,
        forall|i: int|
            0 <= i < 4 && w.failures[i] < u32::MAX && w.fault_threshold > 0 && w.failures[i] + 1
                >= w.fault_threshold ==> #[trigger] spec_all_channels(w, false).faulted[i],
        spec_all_channels(w, true).fault_threshold == w.fault_threshold,
        spec_all_channels(w, false).fault_threshold == w.fault_threshold,
        spec_all_channels(w, true).last_ma == w.last_ma,
        spec_all_channels(w, false).last_ma == w.last_ma,
{
    let ok = spec_all_channels(w, true);
    let bad = spec_all_channels(w, false);
    assert(ok.failures.len() == 4 && ok.faulted.len() == 4);
    assert(ok.failures[0] == 0 && ok.failures[1] == 0 && ok.failures[2] == 0 && ok.failures[3] == 0);
    assert(!ok.faulted[0] && !ok.faulted[1] && !ok.faulted[2] && !ok.faulted[3]);
}

} // verus!
