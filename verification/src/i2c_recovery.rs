//! I²C bus failure tracking and recovery bookkeeping.
//!
//! When a slave device holds SDA low the bus hangs; the standard recovery
//! toggles SCL nine times and generates a STOP condition.  This module
//! decides *when* to recover and counts recoveries; the caller performs
//! the GPIO pulses and reports their outcome.
use vstd::prelude::*;
use vstd::string::StringExecFns;

use crate::board_def::str_is;
use crate::text::{spec_trim, trim};

verus! {

/// GPIO of the I²C data line (SDA) on the Raspberry Pi header.
pub const GPIO_SDA: u8 = 2;

/// GPIO of the I²C clock line (SCL) on the Raspberry Pi header.
pub const GPIO_SCL: u8 = 3;

/// Clock pulses of a bus recovery at most.
pub const RECOVERY_CLOCKS: u8 = 9;

/// Whether a reading of the SDA line's sysfs value shows it released
/// (high): `1`, surrounding whitespace ignored.
pub fn sda_released(reading: &str) -> (b: bool)
    ensures
        b == (spec_trim(reading@) == "1"@),
{
    let t = trim(reading);
    str_is(&t, "1")
}

/// Whether the recovery goes on after clock pulse `pulse` (1-based): until
/// SDA is released or the last pulse is given.
pub fn recovery_continues(pulse: u8, released: bool) -> (b: bool)
    ensures
        b == (!released && pulse < RECOVERY_CLOCKS),
{
    !released && pulse < RECOVERY_CLOCKS
}

/// Tracks consecutive I²C failures and signals when bus recovery is due.
#[derive(Debug)]
pub struct I2cWatchdog {
    consecutive_failures: u32,
    threshold: u32,
    recovery_count: u32,
}

/// Abstract state of an [`I2cWatchdog`].
pub struct I2cWatchdogView {
    pub consecutive_failures: u32,
    pub threshold: u32,
    pub recovery_count: u32,
}

impl View for I2cWatchdog {
    type V = I2cWatchdogView;

    closed spec fn view(&self) -> I2cWatchdogView {
        I2cWatchdogView {
            consecutive_failures: self.consecutive_failures,
            threshold: self.threshold,
            recovery_count: self.recovery_count,
        }
    }
}

/// Recovery is due when the threshold is enabled (non-zero) and the
/// failure count has reached it.
pub open spec fn spec_recovery_due(failures: int, threshold: u32) -> bool {
    threshold > 0 && failures >= threshold
}

/// State after one failure.
pub open spec fn spec_i2c_after_failure(v: I2cWatchdogView) -> I2cWatchdogView {
    I2cWatchdogView { consecutive_failures: (v.consecutive_failures + 1) as u32, ..v }
}

/// State after `n` consecutive failures.
pub open spec fn spec_i2c_after_failures(v: I2cWatchdogView, n: nat) -> I2cWatchdogView
    decreases n,
{
    if n == 0 {
        v
    } else {
        spec_i2c_after_failure(spec_i2c_after_failures(v, (n - 1) as nat))
    }
}

impl I2cWatchdog {
    /// A watchdog with no failures and no recoveries; a threshold of `0`
    /// disables recovery entirely.
    pub fn new(threshold: u32) -> (w: Self)
        ensures
            w@.consecutive_failures == 0,
            w@.threshold == threshold,
            w@.recovery_count == 0,
    {
        I2cWatchdog { consecutive_failures: 0, threshold, recovery_count: 0 }
    }

    /// Record a successful I²C operation: the failure counter resets.
    pub fn record_success(&mut self)
        ensures
            final(self)@ == (I2cWatchdogView { consecutive_failures: 0, ..old(self)@ }),
    {
        self.consecutive_failures = 0;
    }

    /// Record a failed I²C operation.  Returns `true` when the threshold
    /// has been reached and recovery should be attempted.
    pub fn record_failure(&mut self) -> (due: bool)
        requires
            old(self)@.consecutive_failures < u32::MAX,
        ensures
            final(self)@ == spec_i2c_after_failure(old(self)@),
            due == spec_recovery_due(final(self)@.consecutive_failures as int, old(self)@.threshold),
    {
        self.consecutive_failures = self.consecutive_failures + 1;
        self.threshold > 0 && self.consecutive_failures >= self.threshold
    }

    /// Book a bus recovery attempt whose outcome the caller observed
    /// (`recovered`): the recovery count grows by one and the failure
    /// counter resets either way, so that a failed recovery does not cause
    /// a tight retry loop.  Returns `recovered`; after a success the caller
    /// must re-open its I²C device handles.
    pub fn attempt_recovery(&mut self, recovered: bool) -> (r: bool)
        requires
            old(self)@.recovery_count < u32::MAX,
        ensures
            r == recovered,
            final(self)@ == (I2cWatchdogView {
                consecutive_failures: 0,
                recovery_count: (old(self)@.recovery_count + 1) as u32,
                ..old(self)@
            }),
    {
        self.recovery_count = self.recovery_count + 1;
        self.consecutive_failures = 0;
        recovered
    }

    /// Total number of recoveries since startup.
    pub fn recovery_count(&self) -> (n: u32)
        ensures
            n == self@.recovery_count,
    {
        self.recovery_count
    }

    /// Current consecutive failure count.
    pub fn consecutive_failures(&self) -> (n: u32)
        ensures
            n == self@.consecutive_failures,
    {
        self.consecutive_failures
    }
}

/// From a reset counter, `n` consecutive failures bring the count to `n`
/// and leave threshold and recovery count unchanged; the `n`-th failure
/// asks for recovery exactly when the threshold is enabled and `n`
/// reaches it, so a threshold of 0 never asks.
pub proof fn lemma_i2c_failures_trigger_at_threshold(v: I2cWatchdogView, n: nat)
    requires
        v.consecutive_failures == 0,
        n <= u32::MAX,
    ensures
        spec_i2c_after_failures(v, n).consecutive_failures == n,
        spec_i2c_after_failures(v, n).threshold == v.threshold,
        spec_i2c_after_failures(v, n).recovery_count == v.recovery_count,
        spec_recovery_due(n as int, v.threshold) == (v.threshold > 0 && n >= v.threshold),
    decreases n,
{
    if n > 0 {
        lemma_i2c_failures_trigger_at_threshold(v, (n - 1) as nat);
    }
}

} // verus!
