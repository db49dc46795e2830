use sequent_gateway::board_def::{
    AddressConfig, BoardDef, BoardInfo, ChannelConfig, Pca9535Config, RegisterMap,
};
use sequent_gateway::config::{BoardInstance, GatewayConfig};
use sequent_gateway::configure::app::{App, AppAction, Key, Screen};
use sequent_gateway::configure::{sort_offered, summarize_capabilities, AvailableBoard};

fn megaind_def() -> BoardDef {
    BoardDef {
        board: BoardInfo { name: "MegaInd".into(), protocol: "sequent_mcu".into() },
        address: AddressConfig { base: 0x50, mode: "direct".into() },
        channels: ChannelConfig {
            opto_inputs: Some(8),
            analog_4_20ma_inputs: Some(8),
            analog_0_10v_inputs: Some(4),
            od_outputs: Some(4),
            analog_0_10v_outputs: Some(4),
            analog_4_20ma_outputs: Some(4),
            ..Default::default()
        },
        registers: RegisterMap::default(),
        pca9535: None,
        io_groups: vec![],
    }
}

fn relay16_def() -> BoardDef {
    BoardDef {
        board: BoardInfo { name: "16-Relay".into(), protocol: "pca9535".into() },
        address: AddressConfig { base: 0x20, mode: "xor7".into() },
        channels: ChannelConfig { relays: Some(16), ..Default::default() },
        registers: RegisterMap::default(),
        pca9535: Some(Pca9535Config { outport_reg: 0x02, inport_reg: 0x00, config_reg: 0x06 }),
        io_groups: vec![],
    }
}

fn offer(slug: &str, def: BoardDef) -> AvailableBoard {
    let capabilities = summarize_capabilities(&def);
    AvailableBoard {
        slug: slug.into(),
        display_name: def.board.name.clone(),
        experimental: false,
        def,
        capabilities,
    }
}

fn offers() -> Vec<AvailableBoard> {
    vec![offer("megaind", megaind_def()), offer("relay16", relay16_def())]
}

fn values(fields: &[sequent_gateway::configure::app::EditField]) -> Vec<String> {
    fields.iter().map(|f| f.value.clone()).collect()
}

#[test]
fn summarize_capabilities_lists_every_channel_kind() {
    assert_eq!(
        summarize_capabilities(&megaind_def()),
        "8 opto-in, 8× 4-20mA in, 4× 0-10V in, 4 OD-out, 4× 0-10V out, 4× 4-20mA out"
    );
    assert_eq!(summarize_capabilities(&relay16_def()), "16 relays");
}

#[test]
fn summarize_capabilities_empty_board() {
    let mut def = relay16_def();
    def.channels = ChannelConfig::default();
    assert_eq!(summarize_capabilities(&def), "");
}

#[test]
fn new_wizard_shows_defaults() {
    let app = App::new(offers(), None, "out.toml".into());
    assert_eq!(app.screen, Screen::BoardSelect);
    assert!(app.selected_boards.is_empty());
    assert_eq!(values(&app.server_fields), vec!["0.0.0.0", "502", "", "no"]);
    assert_eq!(values(&app.i2c_fields), vec!["10", "5", "10", "5", "", "7", "no"]);
    assert_eq!(app.server_fields[2].label, "Health Port");
    assert_eq!(app.i2c_fields[6].label, "Map Opto to Reg");
    assert_eq!(app.status, "Select boards with Space, Enter to continue");
    assert_eq!(app.output_path, "out.toml");
}

#[test]
fn new_wizard_preselects_configured_boards() {
    let mut cfg = GatewayConfig::default();
    cfg.server.port = 5020;
    cfg.server.health_port = Some(8080);
    cfg.server.single_slave = true;
    cfg.logging.file = Some("/var/log/gw.log".into());
    cfg.map_opto_to_reg = true;
    cfg.board = vec![
        BoardInstance { board_type: "relay16".into(), stack: 3, slave_id: 7 },
        BoardInstance { board_type: "unknown".into(), stack: 0, slave_id: 9 },
        BoardInstance { board_type: "megaind".into(), stack: 1, slave_id: 2 },
    ];
    let app = App::new(offers(), Some(cfg), "out.toml".into());
    assert_eq!(app.selected_boards.len(), 2);
    assert_eq!(app.selected_boards[0].slug, "relay16");
    assert_eq!(app.selected_boards[0].stack, 3);
    assert_eq!(app.selected_boards[0].slave_id, 7);
    assert_eq!(app.selected_boards[0].capabilities, "16 relays");
    assert_eq!(app.selected_boards[1].slug, "megaind");
    assert_eq!(app.selected_boards[1].display_name, "MegaInd");
    assert_eq!(values(&app.server_fields), vec!["0.0.0.0", "5020", "8080", "yes"]);
    assert_eq!(values(&app.i2c_fields)[4], "/var/log/gw.log");
    assert_eq!(values(&app.i2c_fields)[6], "yes");
}

#[test]
fn space_toggles_board_selection() {
    let mut app = App::new(offers(), None, "out.toml".into());
    assert_eq!(app.handle_key(Key::Char(' ')), AppAction::Stay);
    assert_eq!(app.selected_boards.len(), 1);
    assert_eq!(app.selected_boards[0].slug, "megaind");
    assert_eq!(app.selected_boards[0].slave_id, 1);
    app.handle_key(Key::Down);
    assert_eq!(app.board_cursor, 1);
    app.handle_key(Key::Char(' '));
    assert_eq!(app.selected_boards[1].slug, "relay16");
    assert_eq!(app.selected_boards[1].slave_id, 2);
    app.handle_key(Key::Up);
    app.handle_key(Key::Char(' '));
    assert_eq!(app.selected_boards.len(), 1);
    assert_eq!(app.selected_boards[0].slug, "relay16");
}

#[test]
fn cursor_stays_within_the_board_list() {
    let mut app = App::new(offers(), None, "out.toml".into());
    app.handle_key(Key::Up);
    assert_eq!(app.board_cursor, 0);
    app.handle_key(Key::Char('j'));
    app.handle_key(Key::Char('j'));
    assert_eq!(app.board_cursor, 1);
}

#[test]
fn enter_without_selection_warns() {
    let mut app = App::new(offers(), None, "out.toml".into());
    app.handle_key(Key::Enter);
    assert_eq!(app.screen, Screen::BoardSelect);
    assert_eq!(app.status, "⚠ Select at least one board before continuing");
}

#[test]
fn board_config_adjusts_stack_and_slave_id() {
    let mut app = App::new(offers(), None, "out.toml".into());
    app.handle_key(Key::Char(' '));
    app.handle_key(Key::Enter);
    assert_eq!(app.screen, Screen::BoardConfig);
    app.handle_key(Key::Char('+'));
    app.handle_key(Key::Char('+'));
    assert_eq!(app.selected_boards[0].stack, 2);
    app.handle_key(Key::Down);
    app.handle_key(Key::Char('-'));
    assert_eq!(app.selected_boards[0].slave_id, 1);
    assert_eq!(app.dispatch_key(Key::Esc), AppAction::Stay);
    assert_eq!(app.screen, Screen::BoardSelect);
    assert_eq!(app.dispatch_key(Key::Esc), AppAction::Quit);
}

#[test]
fn full_walk_through_renders_and_saves() {
    let mut app = App::new(offers(), None, "out.toml".into());
    app.handle_key(Key::Char(' '));
    app.handle_key(Key::Enter);
    // Board config: Enter only continues from the Continue button.
    app.handle_key(Key::Enter);
    assert_eq!(app.screen, Screen::BoardConfig);
    app.handle_key(Key::Down);
    app.handle_key(Key::Down);
    app.handle_key(Key::Enter);
    assert_eq!(app.screen, Screen::ServerSettings);
    // Edit the Modbus port: "502" -> "5020".
    app.handle_key(Key::Down);
    app.handle_key(Key::Enter);
    assert!(app.editing);
    app.handle_key(Key::Char('0'));
    app.handle_key(Key::Enter);
    assert!(!app.editing);
    assert_eq!(app.server_fields[1].value, "5020");
    // Toggle Single Slave without editing.
    app.handle_key(Key::Down);
    app.handle_key(Key::Down);
    app.handle_key(Key::Enter);
    assert!(!app.editing);
    assert_eq!(app.server_fields[3].value, "yes");
    // Past the last field: Continue.
    app.handle_key(Key::Down);
    app.handle_key(Key::Enter);
    assert_eq!(app.screen, Screen::I2cSettings);
    for _ in 0..7 {
        app.handle_key(Key::Down);
    }
    assert_eq!(app.handle_key(Key::Enter), AppAction::RenderPreview);
    assert_eq!(app.screen, Screen::Review);
    app.set_preview("preview".into());
    assert_eq!(app.preview, "preview");
    assert_eq!(app.handle_key(Key::Char('s')), AppAction::Save);
    assert!(!app.finish_save(Err("disk full".into())));
    assert_eq!(app.status, "❌ Save failed: disk full");
    assert!(!app.saved);
    assert!(app.finish_save(Ok(())));
    assert!(app.saved);

    let cfg = app.build_config();
    assert_eq!(cfg.server.port, 5020);
    assert!(cfg.server.single_slave);
    assert_eq!(cfg.board.len(), 1);
    assert_eq!(cfg.board[0].board_type, "megaind");
    assert_eq!(cfg.board[0].slave_id, 1);
    assert_eq!(cfg.boards_dir, "boards");
}

#[test]
fn build_config_falls_back_on_unparsable_fields() {
    let mut app = App::new(offers(), None, "out.toml".into());
    app.server_fields[0].value = "127.0.0.1".into();
    app.server_fields[1].value = "70000".into();
    app.server_fields[2].value = "+8080".into();
    app.i2c_fields[0].value = "abc".into();
    app.i2c_fields[1].value = "3".into();
    app.i2c_fields[2].value = "".into();
    app.i2c_fields[3].value = "-1".into();
    app.i2c_fields[4].value = "/tmp/gw.log".into();
    app.i2c_fields[5].value = "14".into();
    app.i2c_fields[6].value = "Yes".into();
    let cfg = app.build_config();
    assert_eq!(cfg.server.host, "127.0.0.1");
    assert_eq!(cfg.server.port, 502);
    assert_eq!(cfg.server.health_port, Some(8080));
    assert!(!cfg.server.single_slave);
    assert_eq!(cfg.i2c.reset_threshold, 10);
    assert_eq!(cfg.i2c.channel_fault_threshold, 3);
    assert_eq!(cfg.i2c.relay_verify_interval, 10);
    assert_eq!(cfg.logging.interval, 5);
    assert_eq!(cfg.logging.file.as_deref(), Some("/tmp/gw.log"));
    assert_eq!(cfg.logging.retention, 14);
    assert!(!cfg.map_opto_to_reg);
    assert!(!cfg.builtin_defaults);
}

#[test]
fn build_config_empty_health_port_disables_endpoint() {
    let app = App::new(offers(), None, "out.toml".into());
    let cfg = app.build_config();
    assert_eq!(cfg.server.health_port, None);
    assert_eq!(cfg.logging.file, None);
    assert_eq!(cfg.logging.retention, 7);
}

#[test]
fn editing_backspace_and_escape() {
    let mut app = App::new(offers(), None, "out.toml".into());
    app.handle_key(Key::Char(' '));
    app.handle_key(Key::Enter);
    app.handle_key(Key::Down);
    app.handle_key(Key::Down);
    app.handle_key(Key::Enter);
    app.handle_key(Key::Enter);
    assert!(app.editing);
    app.handle_key(Key::Backspace);
    assert_eq!(app.server_fields[0].value, "0.0.0.");
    app.handle_key(Key::Esc);
    assert!(!app.editing);
    assert_eq!(app.screen, Screen::ServerSettings);
}

#[test]
fn q_quits_only_on_the_board_list() {
    let mut app = App::new(offers(), None, "out.toml".into());
    assert_eq!(app.dispatch_key(Key::Char('q')), AppAction::Quit);
    app.dispatch_key(Key::Char(' '));
    app.dispatch_key(Key::Enter);
    assert_eq!(app.screen, Screen::BoardConfig);
    assert_eq!(app.dispatch_key(Key::Char('q')), AppAction::Stay);
    assert_eq!(app.screen, Screen::BoardConfig);
}

#[test]
fn escape_while_editing_goes_back_a_screen() {
    let mut app = App::new(offers(), None, "out.toml".into());
    app.dispatch_key(Key::Char(' '));
    app.dispatch_key(Key::Enter);
    app.dispatch_key(Key::Down);
    app.dispatch_key(Key::Down);
    app.dispatch_key(Key::Enter);
    app.dispatch_key(Key::Enter);
    assert!(app.editing);
    assert_eq!(app.dispatch_key(Key::Esc), AppAction::Stay);
    assert!(!app.editing);
    assert_eq!(app.screen, Screen::BoardConfig);
}

#[test]
fn production_boards_are_listed_first() {
    let a = offer("relay16", relay16_def());
    let mut b = offer("megaind", megaind_def());
    assert!(b.listed_before(&a));
    assert!(!a.listed_before(&b));
    assert!(!a.listed_before(&a));
    b.experimental = true;
    assert!(a.listed_before(&b));
    assert!(!b.listed_before(&a));
}

#[test]
fn key_ok_refuses_toggle_without_boards() {
    let app = App::new(Vec::new(), None, "out.toml".into());
    assert!(!app.key_ok(Key::Char(' ')));
    assert!(app.key_ok(Key::Down));
    let app = App::new(offers(), None, "out.toml".into());
    assert!(app.key_ok(Key::Char(' ')));
}

#[test]
fn wizard_builds_back_the_configuration_it_started_from() {
    let mut cfg = GatewayConfig::default();
    cfg.server.host = "127.0.0.1".into();
    cfg.server.port = 1502;
    cfg.server.health_port = Some(9090);
    cfg.server.single_slave = true;
    cfg.logging.interval = 30;
    cfg.logging.file = Some("/tmp/gw.log".into());
    cfg.logging.retention = 14;
    cfg.i2c.reset_threshold = 3;
    cfg.i2c.channel_fault_threshold = 0;
    cfg.i2c.relay_verify_interval = 25;
    cfg.map_opto_to_reg = true;
    cfg.board = vec![
        BoardInstance { board_type: "megaind".into(), stack: 1, slave_id: 2 },
        BoardInstance { board_type: "relay16".into(), stack: 0, slave_id: 1 },
    ];
    let app = App::new(offers(), Some(cfg.clone()), "out.toml".into());
    let built = app.build_config();
    assert_eq!(built.server.host, cfg.server.host);
    assert_eq!(built.server.port, cfg.server.port);
    assert_eq!(built.server.health_port, cfg.server.health_port);
    assert_eq!(built.server.single_slave, cfg.server.single_slave);
    assert_eq!(built.logging.interval, cfg.logging.interval);
    assert_eq!(built.logging.file, cfg.logging.file);
    assert_eq!(built.logging.retention, cfg.logging.retention);
    assert_eq!(built.i2c.reset_threshold, cfg.i2c.reset_threshold);
    assert_eq!(built.i2c.channel_fault_threshold, cfg.i2c.channel_fault_threshold);
    assert_eq!(built.i2c.relay_verify_interval, cfg.i2c.relay_verify_interval);
    assert_eq!(built.map_opto_to_reg, cfg.map_opto_to_reg);
    assert_eq!(built.board.len(), 2);
    for (b, c) in built.board.iter().zip(cfg.board.iter()) {
        assert_eq!(b.board_type, c.board_type);
        assert_eq!(b.stack, c.stack);
        assert_eq!(b.slave_id, c.slave_id);
    }
    assert_eq!(built.boards_dir, "boards");
    assert!(!built.builtin_defaults);
}

#[test]
fn offered_boards_list_production_first() {
    let mut exp = offer("alpha", relay16_def());
    exp.experimental = true;
    let sorted = sort_offered(vec![offer("relay16", relay16_def()), exp, offer("megaind", megaind_def())]);
    let slugs: Vec<&str> = sorted.iter().map(|b| b.slug.as_str()).collect();
    assert_eq!(slugs, vec!["megaind", "relay16", "alpha"]);
    assert!(sorted[2].experimental);
}
