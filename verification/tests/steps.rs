use sequent_gateway::validate::checks::CheckEntry;
use sequent_gateway::validate::scenario::ScenarioConfig;
use sequent_gateway::validate::steps::{
    analog_inputs_step, analog_outputs_step, od_outputs_step, relay_writes_step, AnalogStep,
    AoStep, ClientAction, ClientEvent, OdStep, RelayStep,
};

fn cfg(relays: u16, readback: bool) -> ScenarioConfig {
    ScenarioConfig {
        name: "test".into(),
        description: "".into(),
        boards: vec!["megaind".into(), "relay16".into()],
        single_slave: false,
        relay_slave_id: 1,
        ind_slave_id: 2,
        ind_stack: 1,
        relay_stack: 0,
        health_port: 8080,
        modbus_port: 502,
        boards_dir: "boards".into(),
        relay_count: relays,
        opto_channels: 3,
        ma_in_channels: 2,
        v_in_channels: 1,
        od_channels: 0,
        v_out_channels: 0,
        ma_out_channels: 0,
        relay_readback: readback,
        test_health: true,
        test_analog_inputs: true,
        test_relay_writes: true,
        test_od_outputs: false,
        test_analog_outputs: false,
        test_stability: false,
    }
}

/// A simulated gateway: coils, and fixed register and input answers.
struct Sim {
    coils: Vec<bool>,
    fail_writes_from: Option<u16>,
    actions: Vec<ClientAction>,
}

impl Sim {
    fn relay_event(&mut self, action: ClientAction) -> Option<ClientEvent> {
        self.actions.push(action);
        match action {
            ClientAction::WriteCoil { addr, value } => {
                if self.fail_writes_from.map_or(false, |f| addr >= f) {
                    return Some(ClientEvent::Written(Err("timeout".into())));
                }
                self.coils[addr as usize] = value;
                Some(ClientEvent::Written(Ok(())))
            }
            ClientAction::ReadCoils { addr, count } => Some(ClientEvent::Bits(Ok(
                self.coils[addr as usize..(addr + count) as usize].to_vec(),
            ))),
            ClientAction::ReadRegisters { .. } => {
                Some(ClientEvent::Registers(Ok(vec![if self.coils[0] { 1 } else { 0 }])))
            }
            ClientAction::ReadInputs { .. } => Some(ClientEvent::Bits(Ok(vec![]))),
            ClientAction::WriteRegister { .. } => Some(ClientEvent::Written(Ok(()))),
            ClientAction::Pause { .. } => Some(ClientEvent::Paused),
            ClientAction::Done => None,
        }
    }
}

fn run_relay_test(cfg: &ScenarioConfig, sim: &mut Sim) -> Vec<CheckEntry> {
    let mut all = Vec::new();
    let mut step = RelayStep::Start;
    let mut event = ClientEvent::Started;
    loop {
        let (next, action, checks) = relay_writes_step(cfg, step, event);
        all.extend(checks);
        step = next;
        match sim.relay_event(action) {
            Some(e) => event = e,
            None => break,
        }
    }
    all
}

#[test]
fn relay_writes_all_pass() {
    let c = cfg(3, true);
    let mut sim = Sim { coils: vec![false; 16], fail_writes_from: None, actions: vec![] };
    let checks = run_relay_test(&c, &mut sim);
    let ids: Vec<&str> = checks.iter().map(|e| e.id.as_str()).collect();
    assert_eq!(ids, vec!["HR-01", "HR-02", "HR-03", "HR-04", "HR-05", "HR-06", "HR-07"]);
    assert!(checks.iter().all(|e| e.passed));
    assert_eq!(checks[1].detail, "coil[0]=true");
    assert_eq!(checks[2].detail, "HR24=0x0001");
    assert_eq!(checks[4].desc, "Toggle all 3 relays ON");
    assert_eq!(checks[5].detail, "coils=111");
    assert_eq!(checks[6].desc, "All 3 relays OFF after cleanup");
    assert_eq!(checks[6].detail, "coils=000");
    assert!(sim.actions.contains(&ClientAction::Pause { ms: 1200 }));
    assert!(sim.actions.contains(&ClientAction::ReadRegisters { unit: Some(2), addr: 24, count: 1 }));
    assert_eq!(sim.actions.last(), Some(&ClientAction::Done));
}

#[test]
fn relay_writes_stop_when_relay_one_cannot_be_switched() {
    let c = cfg(3, false);
    let mut sim = Sim { coils: vec![false; 16], fail_writes_from: Some(0), actions: vec![] };
    let checks = run_relay_test(&c, &mut sim);
    assert_eq!(checks.len(), 1);
    assert_eq!(checks[0].id, "HR-01");
    assert_eq!(checks[0].desc, "Write relay 1 ON");
    assert!(!checks[0].passed);
    assert_eq!(checks[0].detail, "timeout");
    assert_eq!(sim.actions, vec![ClientAction::WriteCoil { addr: 0, value: true }, ClientAction::Done]);
}

#[test]
fn relay_writes_bulk_switch_stops_at_first_failure() {
    let c = cfg(4, false);
    let mut sim = Sim { coils: vec![false; 16], fail_writes_from: Some(2), actions: vec![] };
    let checks = run_relay_test(&c, &mut sim);
    let hr05 = checks.iter().find(|e| e.id == "HR-05").unwrap();
    assert!(!hr05.passed);
    let hr06 = checks.iter().find(|e| e.id == "HR-06").unwrap();
    assert!(!hr06.passed);
    assert_eq!(hr06.detail, "coils=1100");
    // the switch-on writes stopped at relay 3
    assert!(!sim.actions.contains(&ClientAction::WriteCoil { addr: 3, value: true }));
}

#[test]
fn relay_writes_without_relays_do_nothing() {
    let c = cfg(0, true);
    let (next, action, checks) = relay_writes_step(&c, RelayStep::Start, ClientEvent::Started);
    assert_eq!(next, RelayStep::Finished);
    assert_eq!(action, ClientAction::Done);
    assert!(checks.is_empty());
}

#[test]
fn analog_inputs_sequence_and_judgments() {
    let c = cfg(0, false);
    let mut all: Vec<CheckEntry> = Vec::new();
    let mut actions: Vec<ClientAction> = Vec::new();
    let mut ma_reads = 0;
    let mut step = AnalogStep::Start;
    let mut event = ClientEvent::Started;
    loop {
        let (next, action, checks) = analog_inputs_step(&c, step, event);
        all.extend(checks);
        step = next;
        actions.push(action);
        event = match action {
            ClientAction::ReadRegisters { addr: 0, .. } => {
                ma_reads += 1;
                ClientEvent::Registers(Ok(if ma_reads == 1 { vec![1234, 0] } else { vec![1200, 10] }))
            }
            ClientAction::ReadRegisters { addr: 10, .. } => ClientEvent::Registers(Ok(vec![505])),
            ClientAction::ReadRegisters { addr: 8, .. } => ClientEvent::Registers(Ok(vec![2400])),
            ClientAction::ReadInputs { .. } => ClientEvent::Bits(Ok(vec![true, false, true])),
            ClientAction::Pause { .. } => ClientEvent::Paused,
            ClientAction::Done => break,
            _ => panic!("unexpected {action:?}"),
        };
    }
    let ids: Vec<&str> = all.iter().map(|e| e.id.as_str()).collect();
    assert_eq!(ids, vec!["HA-01", "HA-02", "HA-06", "HA-03", "HA-04", "HA-05"]);
    assert!(all.iter().all(|e| e.passed));
    assert_eq!(all[0].desc, "Read 2 mA input registers");
    assert_eq!(all[0].detail, "mA=[12.34, 0.00]");
    assert_eq!(all[2].detail, "max_drift=0.34 mA");
    assert_eq!(all[3].detail, "V=[5.05]");
    assert_eq!(all[4].detail, "psu=24.00 V");
    assert_eq!(all[5].desc, "Read 3 opto discrete inputs");
    assert_eq!(all[5].detail, "opto=101");
    assert!(actions.contains(&ClientAction::Pause { ms: 300 }));
}

#[test]
fn analog_inputs_flag_drift_and_psu() {
    let c = cfg(0, false);
    let (s1, _, _) = analog_inputs_step(&c, AnalogStep::Start, ClientEvent::Started);
    let (s2, _, first) = analog_inputs_step(&c, s1, ClientEvent::Registers(Ok(vec![0, 0])));
    assert!(!first[1].passed);
    assert_eq!(first[1].detail, "all zero");
    let (s3, _, _) = analog_inputs_step(&c, s2, ClientEvent::Paused);
    let (s4, a4, drift) = analog_inputs_step(&c, s3, ClientEvent::Registers(Ok(vec![50, 0])));
    assert!(!drift[0].passed);
    assert_eq!(drift[0].detail, "max_drift=0.50 mA");
    assert_eq!(a4, ClientAction::ReadRegisters { unit: None, addr: 10, count: 1 });
    let (s5, _, _) = analog_inputs_step(&c, s4, ClientEvent::Registers(Err("refused".into())));
    let (_, a6, psu) = analog_inputs_step(&c, s5, ClientEvent::Registers(Ok(vec![3000])));
    assert!(!psu[0].passed);
    assert_eq!(psu[0].detail, "psu=30.00 V");
    assert_eq!(a6, ClientAction::ReadInputs { addr: 0, count: 3 });
}

#[test]
fn od_outputs_switch_all_and_clean_up() {
    let mut c = cfg(0, false);
    c.od_channels = 4;
    c.single_slave = true;
    let mut sim = Sim { coils: vec![false; 32], fail_writes_from: Some(18), actions: vec![] };
    let mut all: Vec<CheckEntry> = Vec::new();
    let mut step = OdStep::Start;
    let mut event = ClientEvent::Started;
    loop {
        let (next, action, checks) = od_outputs_step(&c, step, event);
        all.extend(checks);
        step = next;
        match sim.relay_event(action) {
            Some(e) => event = e,
            None => break,
        }
    }
    let ids: Vec<&str> = all.iter().map(|e| e.id.as_str()).collect();
    assert_eq!(ids, vec!["HO-01", "HO-02", "HO-03", "HO-04"]);
    assert_eq!(all[1].detail, "coil[16]=true");
    // the switch of output 3 failed, yet output 4 was still switched
    assert_eq!(all[2].desc, "Toggle all 4 OD outputs ON");
    assert!(!all[2].passed);
    assert!(sim.actions.contains(&ClientAction::WriteCoil { addr: 19, value: true }));
    assert_eq!(all[3].desc, "All 4 OD outputs OFF after cleanup");
    assert!(all[3].passed);
}

#[test]
fn analog_outputs_write_read_and_reset() {
    let mut c = cfg(0, false);
    c.v_out_channels = 4;
    c.ma_out_channels = 4;
    let mut regs = [0u16; 25];
    let mut all: Vec<CheckEntry> = Vec::new();
    let mut actions: Vec<ClientAction> = Vec::new();
    let mut step = AoStep::Start;
    let mut event = ClientEvent::Started;
    loop {
        let (next, action, checks) = analog_outputs_step(&c, step, event);
        all.extend(checks);
        step = next;
        actions.push(action);
        event = match action {
            ClientAction::WriteRegister { addr, value } => {
                regs[addr as usize] = value;
                ClientEvent::Written(Ok(()))
            }
            ClientAction::ReadRegisters { addr, .. } => ClientEvent::Registers(Ok(vec![regs[addr as usize]])),
            ClientAction::Pause { .. } => ClientEvent::Paused,
            ClientAction::Done => break,
            _ => panic!("unexpected {action:?}"),
        };
    }
    let ids: Vec<&str> = all.iter().map(|e| e.id.as_str()).collect();
    assert_eq!(ids, vec!["HAO-01", "HAO-02", "HAO-05", "HAO-03", "HAO-04", "HAO-06"]);
    assert!(all.iter().all(|e| e.passed));
    assert_eq!(all[1].detail, "HR16=500 (5.00 V)");
    assert_eq!(all[4].detail, "HR20=1200 (12.00 mA)");
    assert_eq!(actions[0], ClientAction::WriteRegister { addr: 16, value: 500 });
}

#[test]
fn analog_outputs_flag_a_wrong_read_back() {
    let mut c = cfg(0, false);
    c.v_out_channels = 0;
    c.ma_out_channels = 1;
    let (s1, a1, _) = analog_outputs_step(&c, AoStep::Start, ClientEvent::Started);
    assert_eq!(a1, ClientAction::WriteRegister { addr: 20, value: 1200 });
    let (s2, _, w) = analog_outputs_step(&c, s1, ClientEvent::Written(Err("busy".into())));
    assert_eq!(w[0].desc, "Write mA output");
    assert!(!w[0].passed);
    let (s3, _, _) = analog_outputs_step(&c, s2, ClientEvent::Paused);
    let (_, _, r) = analog_outputs_step(&c, s3, ClientEvent::Registers(Ok(vec![1199])));
    assert!(!r[0].passed);
    assert_eq!(r[0].detail, "HR20=1199 (11.99 mA)");
}
