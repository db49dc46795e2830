use sequent_gateway::channel_watchdog::{Channel, ChannelStatus, ChannelWatchdog};

#[test]
fn new_watchdog_all_ok() {
    let wd = ChannelWatchdog::new(5);
    for ch in Channel::all() {
        assert!(!wd.is_faulted(ch));
        assert_eq!(wd.failure_count(ch), 0);
        assert_eq!(wd.status_tag(ch), "OK");
    }
    assert!(!wd.all_faulted());
}

#[test]
fn single_failure_returns_stale() {
    let mut wd = ChannelWatchdog::new(5);
    wd.record_failure(Channel::Ma);
    assert_eq!(wd.status_tag(Channel::Ma), "STALE");
    assert!(!wd.is_faulted(Channel::Ma));
}

#[test]
fn fault_at_threshold() {
    let mut wd = ChannelWatchdog::new(3);
    wd.record_failure(Channel::Volt);
    wd.record_failure(Channel::Volt);
    assert!(!wd.is_faulted(Channel::Volt));
    let just_faulted = wd.record_failure(Channel::Volt);
    assert!(just_faulted);
    assert!(wd.is_faulted(Channel::Volt));
    assert_eq!(wd.status_tag(Channel::Volt), "FAULT");
}

#[test]
fn success_clears_fault() {
    let mut wd = ChannelWatchdog::new(2);
    wd.record_failure(Channel::Psu);
    wd.record_failure(Channel::Psu);
    assert!(wd.is_faulted(Channel::Psu));
    wd.record_success(Channel::Psu);
    assert!(!wd.is_faulted(Channel::Psu));
    assert_eq!(wd.failure_count(Channel::Psu), 0);
    assert_eq!(wd.status_tag(Channel::Psu), "OK");
}

#[test]
fn all_faulted_only_when_every_channel_faults() {
    let mut wd = ChannelWatchdog::new(1);
    wd.record_failure(Channel::Ma);
    wd.record_failure(Channel::Volt);
    wd.record_failure(Channel::Psu);
    assert!(!wd.all_faulted()); // Opto still OK
    wd.record_failure(Channel::Opto);
    assert!(wd.all_faulted());
}

#[test]
fn disabled_threshold_never_faults() {
    let mut wd = ChannelWatchdog::new(0);
    for _ in 0..100 {
        wd.record_failure(Channel::Ma);
    }
    assert!(!wd.is_faulted(Channel::Ma));
    assert!(!wd.all_faulted());
    // Still tracks count though
    assert_eq!(wd.failure_count(Channel::Ma), 100);
}

#[test]
fn last_known_good_ma_fallback() {
    let mut wd = ChannelWatchdog::new(5);
    // 1.00 … 8.00 mA as register values (× 100)
    let good = [100u16, 200, 300, 400, 500, 600, 700, 800];
    wd.update_ma(good);
    let fallback = wd.fallback_ma();
    assert_eq!(fallback, good);
}

#[test]
fn last_known_good_opto_fallback() {
    let mut wd = ChannelWatchdog::new(5);
    let bits = [true, false, true, false, true, false, true, false];
    wd.update_opto(0xAA, bits);
    let (val, fb_bits) = wd.fallback_opto();
    assert_eq!(val, 0xAA);
    assert_eq!(fb_bits, bits);
}

#[test]
fn channels_are_independent() {
    let mut wd = ChannelWatchdog::new(2);
    wd.record_failure(Channel::Ma);
    wd.record_failure(Channel::Ma);
    assert!(wd.is_faulted(Channel::Ma));
    assert!(!wd.is_faulted(Channel::Volt));
    assert!(!wd.is_faulted(Channel::Psu));
    assert!(!wd.is_faulted(Channel::Opto));
}

#[test]
fn fallback_counts_a_failure() {
    let mut wd = ChannelWatchdog::new(2);
    wd.update_psu(2400);
    assert_eq!(wd.fallback_psu(), 2400);
    assert_eq!(wd.status(Channel::Psu), ChannelStatus::Stale);
    assert_eq!(wd.fallback_psu(), 2400);
    assert_eq!(wd.status(Channel::Psu), ChannelStatus::Fault);
    assert_eq!(wd.update_psu(2410), 2410);
    assert_eq!(wd.status(Channel::Psu), ChannelStatus::Healthy);
}

#[test]
fn volt_fallback_keeps_last_good() {
    let mut wd = ChannelWatchdog::new(3);
    assert_eq!(wd.fallback_volt(), [0u16; 4]);
    wd.update_volt([1000, 250, 0, 999]);
    assert_eq!(wd.fallback_volt(), [1000, 250, 0, 999]);
    assert_eq!(wd.failure_count(Channel::Volt), 1);
}

#[test]
fn channel_labels() {
    assert_eq!(Channel::Ma.label(), "4-20mA");
    assert_eq!(Channel::Volt.label(), "0-10V");
    assert_eq!(Channel::Psu.label(), "PSU voltage");
    assert_eq!(Channel::Opto.label(), "Opto inputs");
}

#[test]
fn last_good_ma_survives_other_calls() {
    let mut wd = ChannelWatchdog::new(3);
    wd.update_ma([400, 401, 402, 403, 404, 405, 406, 407]);
    assert_eq!(wd.fallback_ma(), [400, 401, 402, 403, 404, 405, 406, 407]);
    wd.update_volt([1, 2, 3, 4]);
    wd.fallback_psu();
    wd.record_failure(Channel::Opto);
    assert_eq!(wd.fallback_ma(), [400, 401, 402, 403, 404, 405, 406, 407]);
    assert_eq!(wd.fallback_ma(), [400, 401, 402, 403, 404, 405, 406, 407]);
    assert_eq!(wd.failure_count(Channel::Ma), 3);
    assert_eq!(wd.status(Channel::Ma), ChannelStatus::Fault);
}
