use sequent_gateway::channel_watchdog::{Channel, ChannelWatchdog};
use sequent_gateway::health::HealthStats;

/// The cycle time in milliseconds with two decimals, as the server renders it.
fn cycle_ms(stats: &HealthStats) -> String {
    format!("{:.2}", stats.last_cycle_us() as f64 / 1000.0)
}

fn json(stats: &HealthStats) -> String {
    stats.to_json(0, &cycle_ms(stats))
}

#[test]
fn json_format_defaults() {
    let stats = HealthStats::new();
    let json = json(&stats);
    assert!(json.contains(r#""status":"ok""#));
    assert!(json.contains(r#""last_cycle_ms":0.00"#));
    assert!(json.contains(r#""i2c_errors":0"#));
    assert!(json.contains(r#""i2c_recoveries":0"#));
    assert!(json.contains(r#""relay_mismatches":0"#));
    assert!(json.contains(r#""ma":"OK""#));
    assert!(json.contains(r#""volt":"OK""#));
    assert!(json.contains(r#""psu":"OK""#));
    assert!(json.contains(r#""opto":"OK""#));
}

#[test]
fn json_reflects_cycle_time() {
    let mut stats = HealthStats::new();
    stats.set_cycle_time(420); // 0.42 ms
    let json = json(&stats);
    assert!(json.contains(r#""last_cycle_ms":0.42"#));
}

#[test]
fn json_reflects_error_count() {
    let mut stats = HealthStats::new();
    stats.inc_i2c_errors();
    stats.inc_i2c_errors();
    stats.inc_i2c_errors();
    let json = json(&stats);
    assert!(json.contains(r#""i2c_errors":3"#));
    // Errors cause degraded status
    assert!(json.contains(r#""status":"degraded""#));
}

#[test]
fn json_reflects_recovery_count() {
    let mut stats = HealthStats::new();
    stats.set_recovery_count(2);
    let json = json(&stats);
    assert!(json.contains(r#""i2c_recoveries":2"#));
}

#[test]
fn json_reflects_relay_mismatches() {
    let mut stats = HealthStats::new();
    stats.inc_relay_mismatches();
    stats.inc_relay_mismatches();
    let json = json(&stats);
    assert!(json.contains(r#""relay_mismatches":2"#));
}

#[test]
fn json_degraded_when_channel_stale() {
    let mut stats = HealthStats::new();
    // Simulate a STALE channel (value 1 in byte 0 = Ma)
    stats.set_channel_status(1);
    let json = json(&stats);
    assert!(json.contains(r#""status":"degraded""#));
    assert!(json.contains(r#""ma":"STALE""#));
}

#[test]
fn json_degraded_when_channel_fault() {
    let mut stats = HealthStats::new();
    // Simulate FAULT in Opto (byte 3 = 2)
    stats.set_channel_status(2 << 24);
    let json = json(&stats);
    assert!(json.contains(r#""status":"degraded""#));
    assert!(json.contains(r#""opto":"FAULT""#));
    // Other channels still OK
    assert!(json.contains(r#""ma":"OK""#));
}

#[test]
fn uptime_increases() {
    let stats = HealthStats::new();
    // Can't easily test time, but uptime should be >= 0
    let json = json(&stats);
    assert!(json.contains(r#""uptime_s":"#));
}

#[test]
fn update_channel_status_from_watchdog() {
    let mut stats = HealthStats::new();
    let mut ch_wd = ChannelWatchdog::new(2);
    // Fault the Ma channel
    ch_wd.record_failure(Channel::Ma);
    ch_wd.record_failure(Channel::Ma);
    // Stale the Psu channel (1 failure, not yet FAULT)
    ch_wd.record_failure(Channel::Psu);

    stats.update_channel_status(&ch_wd);
    let json = json(&stats);
    assert!(json.contains(r#""ma":"FAULT""#));
    assert!(json.contains(r#""psu":"STALE""#));
    assert!(json.contains(r#""volt":"OK""#));
    assert!(json.contains(r#""opto":"OK""#));
    assert!(json.contains(r#""status":"degraded""#));
}

#[test]
fn json_exact_body() {
    let mut stats = HealthStats::new();
    stats.set_cycle_time(1234);
    stats.set_recovery_count(1);
    let body = stats.to_json(77, &cycle_ms(&stats));
    assert_eq!(
        body,
        r#"{"status":"ok","uptime_s":77,"last_cycle_ms":1.23,"i2c_errors":0,"i2c_recoveries":1,"relay_mismatches":0,"channels":{"ma":"OK","volt":"OK","psu":"OK","opto":"OK"}}"#
    );
}

#[test]
fn unknown_code_shows_fault() {
    let mut stats = HealthStats::new();
    stats.set_channel_status(7 << 8);
    let json = json(&stats);
    assert!(json.contains(r#""volt":"FAULT""#));
}

#[test]
fn status_recovers_after_a_clean_cycle() {
    let mut stats = HealthStats::new();
    stats.inc_i2c_errors();
    stats.set_cycle_time(500); // the cycle with the error ends
    let json = stats.to_json(1, "0.50");
    assert!(json.contains(r#""status":"degraded""#));
    stats.set_cycle_time(400); // a clean cycle ends
    let json = stats.to_json(2, "0.40");
    assert!(json.contains(r#""status":"ok""#));
    assert!(json.contains(r#""i2c_errors":1"#));
}
