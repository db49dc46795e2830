use sequent_gateway::databank::DataBank;
use sequent_gateway::gateway::{
    board_types, choose_definition, coil_text, logs_to_remove, opto_text, stack_for_protocol,
    DefinitionChoice,
};
use sequent_gateway::health::http_health_response;
use sequent_gateway::i2c_recovery::{recovery_continues, sda_released};

#[test]
fn default_board_types() {
    assert_eq!(board_types(&[]), vec!["megaind".to_string(), "relay16".to_string()]);
    assert_eq!(
        board_types(&["MegaInd".to_string(), "relay8".to_string()]),
        vec!["megaind".to_string(), "relay8".to_string()]
    );
}

#[test]
fn stack_follows_protocol() {
    assert_eq!(stack_for_protocol(&"pca9535".to_string(), 0, 1), 0);
    assert_eq!(stack_for_protocol(&"sequent_mcu".to_string(), 0, 1), 1);
}

#[test]
fn definition_sources() {
    let slug = "relay16".to_string();
    assert!(matches!(choose_definition(&slug, "boards/relay16.toml", true, false, "boards"), DefinitionChoice::LoadToml));
    match choose_definition(&slug, "boards/relay16.toml", false, true, "boards") {
        DefinitionChoice::Builtin(d) => assert_eq!(d.board.name, "Sequent 16-Relay HAT"),
        other => panic!("unexpected {other:?}"),
    }
    match choose_definition(&"x".to_string(), "boards/x.toml", false, true, "boards") {
        DefinitionChoice::Missing(m) => assert_eq!(
            m,
            "No TOML found for 'x' and no built-in defaults available.\nPlace a x.toml in boards or run with --install-boards."
        ),
        other => panic!("unexpected {other:?}"),
    }
    match choose_definition(&slug, "boards/relay16.toml", false, false, "boards") {
        DefinitionChoice::Missing(m) => assert_eq!(
            m,
            "Board definition not found: boards/relay16.toml\nPlace a relay16.toml in boards or pass --builtin-defaults."
        ),
        other => panic!("unexpected {other:?}"),
    }
}

#[test]
fn heartbeat_bit_strings() {
    let mut db = DataBank::new();
    db.discrete_inputs[0] = true;
    db.discrete_inputs[6] = true;
    assert_eq!(opto_text(&db), "01000001");
    db.coils[1] = true;
    db.coils[17] = true;
    assert_eq!(coil_text(&db, 0, 4), "0100");
    assert_eq!(coil_text(&db, 16, 4), "0100");
    assert_eq!(coil_text(&db, 18, 4), "0000");
}

#[test]
fn only_the_newest_logs_are_kept() {
    let names: Vec<String> = ["gw.log.2026-03-03", "other.txt", "gw.log.2026-03-01", "gw.log.2026-03-02", "gw.log.2026-03-04"]
        .iter()
        .map(|s| s.to_string())
        .collect();
    assert_eq!(logs_to_remove(&names, "gw.log", 2), vec!["gw.log.2026-03-01", "gw.log.2026-03-02"]);
    assert!(logs_to_remove(&names, "gw.log", 4).is_empty());
    assert_eq!(logs_to_remove(&names, "gw.log", 0).len(), 4);
}

#[test]
fn health_http_answers() {
    let ok = http_health_response("GET /health HTTP/1.0\r\n\r\n", "{\"status\":\"ok\"}");
    assert_eq!(
        ok,
        "HTTP/1.1 200 OK\r\nContent-Type: application/json\r\nContent-Length: 15\r\nConnection: close\r\n\r\n{\"status\":\"ok\"}"
    );
    let nf = http_health_response("GET / HTTP/1.0\r\n", "{}");
    assert!(nf.starts_with("HTTP/1.1 404 Not Found\r\n"));
    assert!(nf.ends_with("Content-Length: 21\r\nConnection: close\r\n\r\n{\"error\":\"not found\"}"));
}

#[test]
fn recovery_pulses() {
    assert!(sda_released("1\n"));
    assert!(!sda_released("0\n"));
    assert!(recovery_continues(1, false));
    assert!(!recovery_continues(9, false));
    assert!(!recovery_continues(3, true));
}

#[test]
fn builtin_definition_is_the_compiled_one() {
    let slug = "megaind".to_string();
    match choose_definition(&slug, "boards/megaind.toml", false, true, "boards") {
        DefinitionChoice::Builtin(d) => {
            assert_eq!(d.board.protocol, "sequent_mcu");
            assert_eq!(d.address.base, 0x50);
            assert_eq!(d.channels.opto_inputs, Some(8));
            assert_eq!(d.channels.analog_4_20ma_inputs, Some(8));
            assert_eq!(d.registers.i4_20_in, Some(0x2C));
            assert!(d.pca9535.is_none());
        }
        other => panic!("unexpected {other:?}"),
    }
}
