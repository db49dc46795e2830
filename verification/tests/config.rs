use sequent_gateway::config::{GatewayConfig, I2cConfig, LoggingConfig, ServerConfig};

#[test]
fn default_config_is_valid() {
    let cfg = GatewayConfig::default();
    assert_eq!(cfg.server.host, "0.0.0.0");
    assert_eq!(cfg.server.port, 502);
    assert_eq!(cfg.logging.interval, 5);
    assert_eq!(cfg.i2c.reset_threshold, 10);
    assert!(cfg.board.is_empty());
}

#[test]
fn section_defaults() {
    let s = ServerConfig::default();
    assert_eq!(s.health_port, None);
    assert!(!s.single_slave);
    let l = LoggingConfig::default();
    assert_eq!(l.file, None);
    assert_eq!(l.retention, 7);
    let i = I2cConfig::default();
    assert_eq!(i.channel_fault_threshold, 5);
    assert_eq!(i.relay_verify_interval, 10);
    let g = GatewayConfig::default();
    assert_eq!(g.boards_dir, "");
    assert!(!g.map_opto_to_reg);
    assert!(!g.builtin_defaults);
}

#[test]
fn default_path_prefers_local_then_system() {
    assert_eq!(GatewayConfig::default_path(true, true).as_deref(), Some("sequent-gateway.toml"));
    assert_eq!(
        GatewayConfig::default_path(false, true).as_deref(),
        Some("/etc/sequent-gateway/sequent-gateway.toml")
    );
    assert_eq!(GatewayConfig::default_path(false, false), None);
}
