use sequent_gateway::board_def::{
    AddressConfig, BoardDef, BoardInfo, ChannelConfig, Pca9535Config, RegisterMap,
};
use sequent_gateway::cli::ValidateArgs;
use sequent_gateway::validate::scenario::{
    parse_selection, picker_lines, resolve_boards, sort_available, AvailableBoard, ScenarioConfig,
    SelectionError,
};

fn stub_args() -> ValidateArgs {
    ValidateArgs {
        gateway_bin: None,
        boards: vec![],
        boards_dir: "boards".to_string(),
        single_slave: false,
        relay_slave_id: 1,
        ind_slave_id: 2,
        ind_stack: 1,
        relay_stack: 0,
        modbus_port: 502,
        health_port: 8080,
        skip_writes: false,
        stability_duration: 5,
        startup_timeout: 10,
    }
}

fn megaind_def() -> BoardDef {
    BoardDef {
        board: BoardInfo { name: "MegaInd".into(), protocol: "sequent_mcu".into() },
        address: AddressConfig { base: 0x50, mode: "direct".into() },
        channels: ChannelConfig {
            opto_inputs: Some(8),
            analog_4_20ma_inputs: Some(8),
            analog_0_10v_inputs: Some(4),
            od_outputs: Some(4),
            analog_0_10v_outputs: Some(4),
            analog_4_20ma_outputs: Some(4),
            ..Default::default()
        },
        registers: RegisterMap::default(),
        pca9535: None,
        io_groups: vec![],
    }
}

fn relay16_def() -> BoardDef {
    BoardDef {
        board: BoardInfo { name: "16-Relay".into(), protocol: "pca9535".into() },
        address: AddressConfig { base: 0x20, mode: "xor7".into() },
        channels: ChannelConfig { relays: Some(16), ..Default::default() },
        registers: RegisterMap::default(),
        pca9535: Some(Pca9535Config { outport_reg: 0x02, inport_reg: 0x00, config_reg: 0x06 }),
        io_groups: vec![],
    }
}

#[test]
fn from_boards_single_relay_board() {
    let args = stub_args();
    let names = vec!["relay16".into()];
    let defs = vec![relay16_def()];
    let cfg = ScenarioConfig::from_boards(&names, &defs, &args);

    assert_eq!(cfg.relay_count, 16);
    assert_eq!(cfg.opto_channels, 0);
    assert_eq!(cfg.ma_in_channels, 0);
    assert_eq!(cfg.od_channels, 0);
    assert!(!cfg.relay_readback); // no megaind → no readback
    assert!(cfg.name.contains("relay16"));
    assert!(cfg.name.contains("multi-slave"));
}

#[test]
fn from_boards_megaind_plus_relay() {
    let args = stub_args();
    let names = vec!["megaind".into(), "relay16".into()];
    let defs = vec![megaind_def(), relay16_def()];
    let cfg = ScenarioConfig::from_boards(&names, &defs, &args);

    assert_eq!(cfg.relay_count, 16);
    assert_eq!(cfg.opto_channels, 8);
    assert_eq!(cfg.ma_in_channels, 8);
    assert_eq!(cfg.v_in_channels, 4);
    assert_eq!(cfg.od_channels, 4);
    assert_eq!(cfg.v_out_channels, 4);
    assert_eq!(cfg.ma_out_channels, 4);
    assert!(cfg.relay_readback); // megaind + relays → readback
}

#[test]
fn from_boards_single_slave_flag() {
    let mut args = stub_args();
    args.single_slave = true;
    let names = vec!["megaind".into()];
    let defs = vec![megaind_def()];
    let cfg = ScenarioConfig::from_boards(&names, &defs, &args);

    assert!(cfg.single_slave);
    assert!(cfg.name.contains("single-slave"));
}

#[test]
fn from_boards_sums_capabilities_across_boards() {
    let args = stub_args();
    // Two relay boards
    let names = vec!["relay16".into(), "relay8".into()];
    let relay8 = BoardDef {
        board: BoardInfo { name: "8-Relay".into(), protocol: "pca9535".into() },
        address: AddressConfig { base: 0x38, mode: "xor7".into() },
        channels: ChannelConfig { relays: Some(8), ..Default::default() },
        registers: RegisterMap::default(),
        pca9535: Some(Pca9535Config { outport_reg: 0x02, inport_reg: 0x00, config_reg: 0x06 }),
        io_groups: vec![],
    };
    let defs = vec![relay16_def(), relay8];
    let cfg = ScenarioConfig::from_boards(&names, &defs, &args);

    assert_eq!(cfg.relay_count, 24); // 16 + 8
}

#[test]
fn from_boards_passes_cli_addressing() {
    let mut args = stub_args();
    args.relay_slave_id = 5;
    args.ind_slave_id = 10;
    args.ind_stack = 3;
    args.relay_stack = 2;
    args.health_port = 9090;
    args.modbus_port = 5020;
    let names = vec!["megaind".into()];
    let defs = vec![megaind_def()];
    let cfg = ScenarioConfig::from_boards(&names, &defs, &args);

    assert_eq!(cfg.relay_slave_id, 5);
    assert_eq!(cfg.ind_slave_id, 10);
    assert_eq!(cfg.ind_stack, 3);
    assert_eq!(cfg.relay_stack, 2);
    assert_eq!(cfg.health_port, 9090);
    assert_eq!(cfg.modbus_port, 5020);
}

#[test]
fn resolve_boards_matches_by_slug() {
    let available = vec![
        AvailableBoard {
            slug: "megaind".into(),
            display_name: "MegaInd".into(),
            path: "boards/megaind.toml".into(),
            def: megaind_def(),
        },
        AvailableBoard {
            slug: "relay16".into(),
            display_name: "16-Relay".into(),
            path: "boards/relay16.toml".into(),
            def: relay16_def(),
        },
    ];
    let (names, defs) = resolve_boards(&["relay16".into()], &available).unwrap();
    assert_eq!(names, vec!["relay16"]);
    assert_eq!(defs.len(), 1);
    assert_eq!(defs[0].board.name, "16-Relay");
}

#[test]
fn resolve_boards_unknown_board_errors() {
    let available = vec![AvailableBoard {
        slug: "megaind".into(),
        display_name: "MegaInd".into(),
        path: "boards/megaind.toml".into(),
        def: megaind_def(),
    }];
    let result = resolve_boards(&["nonexistent".into()], &available);
    assert!(result.is_err());
    let msg = result.unwrap_err().message();
    assert!(msg.contains("nonexistent"));
    assert!(msg.contains("megaind")); // lists available boards
}

#[test]
fn scenario_name_and_description() {
    let args = stub_args();
    let names = vec!["megaind".into(), "relay16".into()];
    let defs = vec![megaind_def(), relay16_def()];
    let cfg = ScenarioConfig::from_boards(&names, &defs, &args);
    assert_eq!(cfg.name, "megaind + relay16 (multi-slave)");
    assert_eq!(cfg.description, "Dynamic scenario: 2 board(s), multi-slave addressing");
    assert!(cfg.has_megaind());
}

#[test]
fn industrial_name_enables_readback_in_any_case() {
    let args = stub_args();
    let mut ind = megaind_def();
    ind.board.name = "Sequent INDUSTRIAL HAT".into();
    let names = vec!["ind".into(), "relay16".into()];
    let defs = vec![ind, relay16_def()];
    let cfg = ScenarioConfig::from_boards(&names, &defs, &args);
    assert!(cfg.relay_readback);
    assert!(!cfg.has_megaind());
}

#[test]
fn gateway_args_exact() {
    let mut args = stub_args();
    args.single_slave = true;
    let names = vec!["megaind".into(), "relay16".into()];
    let defs = vec![megaind_def(), relay16_def()];
    let cfg = ScenarioConfig::from_boards(&names, &defs, &args);
    let argv = cfg.gateway_args("/usr/bin/sequent-gateway");
    let expect: Vec<String> = [
        "/usr/bin/sequent-gateway",
        "--board",
        "megaind",
        "--board",
        "relay16",
        "--port",
        "502",
        "--health-port",
        "8080",
        "--ind-stack",
        "1",
        "--relay-stack",
        "0",
        "--relay-slave-id",
        "1",
        "--ind-slave-id",
        "2",
        "--single-slave",
        "--boards-dir",
        "boards",
    ]
    .iter()
    .map(|s| s.to_string())
    .collect();
    assert_eq!(argv, expect);
}

#[test]
fn resolve_keeps_request_order() {
    let available = vec![
        AvailableBoard {
            slug: "megaind".into(),
            display_name: "MegaInd".into(),
            path: "boards/megaind.toml".into(),
            def: megaind_def(),
        },
        AvailableBoard {
            slug: "relay16".into(),
            display_name: "16-Relay".into(),
            path: "boards/relay16.toml".into(),
            def: relay16_def(),
        },
    ];
    let (names, defs) =
        resolve_boards(&["relay16".into(), "megaind".into()], &available).unwrap();
    assert_eq!(names, vec!["relay16", "megaind"]);
    assert_eq!(defs[1].board.name, "MegaInd");
    let err = resolve_boards(&["megaind".into(), "x".into()], &available).unwrap_err();
    assert_eq!(
        err.message(),
        "board \"x\" not found in boards directory. Available: megaind, relay16"
    );
}

fn two_boards() -> Vec<AvailableBoard> {
    vec![
        AvailableBoard {
            slug: "megaind".into(),
            display_name: "MegaInd".into(),
            path: "boards/megaind.toml".into(),
            def: megaind_def(),
        },
        AvailableBoard {
            slug: "relay16".into(),
            display_name: "16-Relay".into(),
            path: "boards/relay16.toml".into(),
            def: relay16_def(),
        },
    ]
}

#[test]
fn picker_lists_boards_with_capabilities() {
    let lines = picker_lines(&two_boards());
    assert_eq!(
        lines,
        vec![
            "    1. megaind — MegaInd  (8 opto, 8× 4-20mA in, 4× 0-10V in, 4 OD out, 4× 0-10V out, 4× 4-20mA out)".to_string(),
            "    2. relay16 — 16-Relay  (16 relays)".to_string(),
        ]
    );
}

#[test]
fn selection_keeps_typed_order_and_skips_blanks() {
    let (names, defs) = parse_selection(" 2, 1 \n", &two_boards()).unwrap();
    assert_eq!(names, vec!["relay16", "megaind"]);
    assert_eq!(defs[0].channels.relays, Some(16));
    let (names, _) = parse_selection("1,,+2,", &two_boards()).unwrap();
    assert_eq!(names, vec!["megaind", "relay16"]);
}

#[test]
fn selection_errors() {
    let e = parse_selection("1,x", &two_boards()).unwrap_err();
    assert_eq!(e, SelectionError::Invalid { token: "x".into() });
    assert_eq!(e.message(), "invalid selection: \"x\"");
    let e = parse_selection("3", &two_boards()).unwrap_err();
    assert_eq!(e.message(), "selection out of range: 3 (1-2)");
    assert_eq!(parse_selection("0", &two_boards()).unwrap_err(), SelectionError::OutOfRange { index: 0, count: 2 });
    assert_eq!(parse_selection("  ", &two_boards()).unwrap_err(), SelectionError::NoneSelected);
    assert_eq!(SelectionError::NoneSelected.message(), "no boards selected");
}

#[test]
fn available_boards_sort_by_slug() {
    let mk = |slug: &str| AvailableBoard {
        slug: slug.into(),
        display_name: slug.to_uppercase(),
        path: format!("boards/{slug}.toml"),
        def: megaind_def(),
    };
    let sorted = sort_available(vec![mk("relay8"), mk("megaind"), mk("relay16"), mk("Zeta")]);
    let slugs: Vec<&str> = sorted.iter().map(|b| b.slug.as_str()).collect();
    assert_eq!(slugs, vec!["Zeta", "megaind", "relay16", "relay8"]);
    assert_eq!(sorted[1].display_name, "MEGAIND");
}
