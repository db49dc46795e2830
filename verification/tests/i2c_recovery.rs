use sequent_gateway::i2c_recovery::I2cWatchdog;

#[test]
fn watchdog_disabled_when_threshold_zero() {
    let mut wd = I2cWatchdog::new(0);
    for _ in 0..100 {
        assert!(!wd.record_failure());
    }
}

#[test]
fn watchdog_triggers_at_threshold() {
    let mut wd = I2cWatchdog::new(5);
    for _ in 0..4 {
        assert!(!wd.record_failure());
    }
    assert!(wd.record_failure()); // 5th failure
}

#[test]
fn watchdog_resets_on_success() {
    let mut wd = I2cWatchdog::new(3);
    assert!(!wd.record_failure());
    assert!(!wd.record_failure());
    wd.record_success();
    assert_eq!(wd.consecutive_failures(), 0);
    assert!(!wd.record_failure());
    assert!(!wd.record_failure());
    assert!(wd.record_failure()); // 3rd after reset
}

#[test]
fn recovery_count_increments() {
    let mut wd = I2cWatchdog::new(2);
    assert!(!wd.record_failure());
    assert!(wd.record_failure());
    // The GPIO pulses are the caller's part; the counter logic is here.
    assert_eq!(wd.recovery_count(), 0);
}

#[test]
fn recovery_booking_resets_failures() {
    let mut wd = I2cWatchdog::new(2);
    wd.record_failure();
    wd.record_failure();
    assert!(wd.attempt_recovery(true));
    assert_eq!(wd.recovery_count(), 1);
    assert_eq!(wd.consecutive_failures(), 0);
    wd.record_failure();
    assert!(!wd.attempt_recovery(false));
    assert_eq!(wd.recovery_count(), 2);
    assert_eq!(wd.consecutive_failures(), 0);
}
