use sequent_gateway::cli::ValidateArgs;
use sequent_gateway::validate::checks::{
    any_nonzero, bits_text, drift_ok, first_all, health_checks, new_errors, psu_in_range,
    relay1_on, stability_checks, status_acceptable, ChannelFacts, HealthFacts, StabilitySample,
    TestPlan,
};
use sequent_gateway::validate::scenario::ScenarioConfig;
use sequent_gateway::board_def::{
    AddressConfig, BoardDef, BoardInfo, ChannelConfig, RegisterMap,
};

fn args(single_slave: bool) -> ValidateArgs {
    ValidateArgs {
        gateway_bin: None,
        boards: vec![],
        boards_dir: "boards".to_string(),
        single_slave,
        relay_slave_id: 1,
        ind_slave_id: 2,
        ind_stack: 1,
        relay_stack: 0,
        modbus_port: 502,
        health_port: 8080,
        skip_writes: false,
        stability_duration: 5,
        startup_timeout: 10,
    }
}

fn megaind_def() -> BoardDef {
    BoardDef {
        board: BoardInfo { name: "MegaInd".into(), protocol: "sequent_mcu".into() },
        address: AddressConfig { base: 0x50, mode: "direct".into() },
        channels: ChannelConfig {
            opto_inputs: Some(8),
            od_outputs: Some(4),
            ..Default::default()
        },
        registers: RegisterMap::default(),
        pca9535: None,
        io_groups: vec![],
    }
}

fn megaind_scenario(single_slave: bool) -> ScenarioConfig {
    ScenarioConfig::from_boards(&["megaind".to_string()], &[megaind_def()], &args(single_slave))
}

#[test]
fn plan_follows_channels_and_skip_writes() {
    let cfg = megaind_scenario(false);
    let plan = cfg.test_plan(false);
    assert_eq!(
        plan,
        TestPlan {
            health: true,
            analog_inputs: true,
            relay_writes: false,
            od_outputs: true,
            analog_outputs: false,
            stability: true,
        }
    );
    let skipped = cfg.test_plan(true);
    assert!(!skipped.od_outputs);
    assert!(skipped.analog_inputs);
}

#[test]
fn unit_ids_follow_addressing_mode() {
    let multi = megaind_scenario(false);
    assert_eq!(multi.client_unit_id(true), 1);
    assert_eq!(multi.client_unit_id(false), 2);
    assert_eq!(multi.readback_unit_id(), Some(2));
    assert_eq!(multi.od_coil_base(), 0);
    let single = megaind_scenario(true);
    assert_eq!(single.client_unit_id(false), 1);
    assert_eq!(single.readback_unit_id(), None);
    assert_eq!(single.od_coil_base(), 16);
}

#[test]
fn bit_helpers() {
    assert_eq!(bits_text(&[true, false, true]), "101");
    assert_eq!(bits_text(&[]), "");
    assert!(first_all(&[true, true, false], 2, true));
    assert!(!first_all(&[true, true, false], 3, true));
    assert!(first_all(&[false], 5, false));
    assert!(any_nonzero(&[0, 0, 3]));
    assert!(!any_nonzero(&[0, 0]));
}

#[test]
fn health_status_and_error_counts() {
    assert!(status_acceptable(&"ok".to_string()));
    assert!(status_acceptable(&"degraded".to_string()));
    assert!(!status_acceptable(&"OK".to_string()));
    assert_eq!(new_errors(3, 5), 2);
    assert_eq!(new_errors(5, 3), u64::MAX - 1);
}

#[test]
fn psu_range_is_three_to_thirty_volts() {
    assert!(!psu_in_range(299));
    assert!(psu_in_range(300));
    assert!(psu_in_range(2400));
    assert!(psu_in_range(2999));
    assert!(!psu_in_range(3000));
}

#[test]
fn drift_below_half_a_unit() {
    assert!(drift_ok(&[1200, 400], &[1249, 351]));
    assert!(!drift_ok(&[1200, 400], &[1250, 400]));
    assert!(!drift_ok(&[400], &[350]));
    assert!(drift_ok(&[400, 0], &[400]));
}

#[test]
fn relay_one_is_bit_zero() {
    assert!(relay1_on(0x0001));
    assert!(relay1_on(0x8003));
    assert!(!relay1_on(0x0002));
}

#[test]
fn health_checks_from_a_report() {
    let facts = HealthFacts {
        status: "degraded".into(),
        uptime_s: 42,
        last_cycle_ms_2: "3.50".into(),
        last_cycle_ms_3: "3.500".into(),
        i2c_errors: 7,
        i2c_recoveries: 1,
        relay_mismatches: 0,
        channels: Some(ChannelFacts { ma: "OK".into(), volt: "OK".into(), psu: "FAULT".into(), opto: "OK".into() }),
    };
    let checks = health_checks(Ok(facts), true, true);
    let ids: Vec<&str> = checks.iter().map(|c| c.id.as_str()).collect();
    assert_eq!(ids, vec!["HH-01", "HH-02", "HH-03", "HH-04", "HH-05", "HH-06", "HH-07", "HH-08", "HH-09", "HH-10"]);
    assert!(checks.iter().all(|c| c.passed));
    assert_eq!(checks[0].detail, "HTTP 200");
    assert_eq!(checks[2].detail, "status=degraded");
    assert_eq!(checks[3].detail, "uptime_s=42");
    assert_eq!(checks[4].detail, "last_cycle_ms=3.50");
    assert_eq!(checks[5].detail, "i2c_errors=7");
    assert_eq!(checks[8].detail, "ma=OK volt=OK psu=FAULT opto=OK");
    assert_eq!(checks[9].desc, "I/O cycle < 15 ms");
    assert_eq!(checks[9].detail, "last_cycle_ms=3.500");
}

#[test]
fn health_checks_judge_the_report() {
    let facts = HealthFacts {
        status: "broken".into(),
        uptime_s: 0,
        last_cycle_ms_2: "0.00".into(),
        last_cycle_ms_3: "0.000".into(),
        i2c_errors: 0,
        i2c_recoveries: 0,
        relay_mismatches: 3,
        channels: None,
    };
    let checks = health_checks(Ok(facts), false, false);
    let failed: Vec<&str> = checks.iter().filter(|c| !c.passed).map(|c| c.id.as_str()).collect();
    assert_eq!(failed, vec!["HH-03", "HH-04", "HH-05", "HH-09", "HH-10"]);
    assert_eq!(checks[7].detail, "relay_mismatches=3");
    assert_eq!(checks[8].detail, "MISSING");
}

#[test]
fn health_checks_without_a_report() {
    let checks = health_checks(Err("connection refused".into()), true, true);
    assert_eq!(checks.len(), 1);
    assert_eq!(checks[0].id, "HH-01");
    assert!(!checks[0].passed);
    assert_eq!(checks[0].detail, "connection refused");
}

#[test]
fn stability_checks_judge_the_samples() {
    let samples = vec![
        StabilitySample { status: "ok".into(), i2c_errors: 4 },
        StabilitySample { status: "degraded".into(), i2c_errors: 4 },
        StabilitySample { status: "ok".into(), i2c_errors: 6 },
    ];
    let checks = stability_checks(2, &samples, true, "avg=3.000 ms, max=4.000 ms");
    assert_eq!(checks.len(), 4);
    assert_eq!(checks[0].desc, "2s stability test collected samples");
    assert!(checks[0].passed);
    assert_eq!(checks[0].detail, "3 samples");
    assert!(!checks[1].passed);
    assert_eq!(checks[1].detail, "new_errors=2");
    assert!(!checks[2].passed);
    assert!(checks[3].passed);
    assert_eq!(checks[3].detail, "avg=3.000 ms, max=4.000 ms");
}

#[test]
fn stability_checks_without_samples() {
    let checks = stability_checks(5, &[], true, "");
    assert_eq!(checks.len(), 1);
    assert_eq!(checks[0].desc, "5s stability test");
    assert!(!checks[0].passed);
    assert_eq!(checks[0].detail, "No samples collected");
}
