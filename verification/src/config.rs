//! Gateway configuration (`sequent-gateway.toml`), as plain values.
//!
//! ```toml
//! [server]
//! host = "0.0.0.0"
//! port = 502
//! health_port = 8080
//! single_slave = false
//!
//! [logging]
//! interval = 5
//! file = "/var/log/sequent-gateway.log"
//! retention = 7
//!
//! [i2c]
//! reset_threshold = 10
//! channel_fault_threshold = 5
//! relay_verify_interval = 10
//!
//! [[board]]
//! type = "megaind"
//! stack = 1
//! slave_id = 2
//! ```
//!
//! Reading and writing the file is the application's part; CLI flags
//! override file values.
use vstd::prelude::*;
use vstd::string::StringExecFns;

verus! {

/// Complete gateway configuration.
#[derive(Debug, Clone)]
pub struct GatewayConfig {
    /// Server / networking settings.
    pub server: ServerConfig,
    /// Logging settings.
    pub logging: LoggingConfig,
    /// I²C bus tuning.
    pub i2c: I2cConfig,
    /// Board instances to expose over Modbus.
    pub board: Vec<BoardInstance>,
    /// Directory of board definition TOML files.
    pub boards_dir: String,
    /// Map the opto-input bitmask to holding register 15.
    pub map_opto_to_reg: bool,
    /// Fall back to compiled-in register maps (deprecated).
    pub builtin_defaults: bool,
}

/// Network binding and Modbus addressing.
#[derive(Debug, Clone)]
pub struct ServerConfig {
    /// IP address to bind.
    pub host: String,
    /// Modbus TCP port.
    pub port: u16,
    /// HTTP health endpoint port (`None` = disabled).
    pub health_port: Option<u16>,
    /// One flat Modbus slave ID.
    pub single_slave: bool,
}

/// Logging configuration.
#[derive(Debug, Clone)]
pub struct LoggingConfig {
    /// Heartbeat log interval in seconds.
    pub interval: u64,
    /// Path of a daily-rotated log file (`None` = stdout only).
    pub file: Option<String>,
    /// Number of rotated log files to keep.
    pub retention: usize,
}

/// I²C bus recovery and watchdog tuning.
#[derive(Debug, Clone, Copy)]
pub struct I2cConfig {
    /// Consecutive I²C failures before GPIO bus recovery.
    pub reset_threshold: u32,
    /// Consecutive per-channel failures before FAULT.
    pub channel_fault_threshold: u32,
    /// Poll ticks between relay read-back checks.
    pub relay_verify_interval: u32,
}

/// One board instance of the configuration.
#[derive(Debug, Clone)]
pub struct BoardInstance {
    /// Board type slug (a `.toml` file name in `boards_dir`).
    pub board_type: String,
    /// I²C stack level, 0–7.
    pub stack: u8,
    /// Modbus slave ID, 1–247.
    pub slave_id: u8,
}

impl Default for ServerConfig {
    /// `0.0.0.0:502`, no health port, multi-slave.
    fn default() -> (c: Self)
        ensures
            c.host@ == "0.0.0.0"@,
            c.port == 502,
            c.health_port is None,
            !c.single_slave,
    {
        ServerConfig {
            host: String::from_str("0.0.0.0"),
            port: 502,
            health_port: None,
            single_slave: false,
        }
    }
}

impl Default for LoggingConfig {
    /// A 5 s heartbeat, stdout only, 7 rotated files kept.
    fn default() -> (c: Self)
        ensures
            c.interval == 5,
            c.file is None,
            c.retention == 7,
    {
        LoggingConfig { interval: 5, file: None, retention: 7 }
    }
}

impl Default for I2cConfig {
    /// Recovery after 10 failures, FAULT after 5, read-back every 10 ticks.
    fn default() -> (c: Self)
        ensures
            c.reset_threshold == 10,
            c.channel_fault_threshold == 5,
            c.relay_verify_interval == 10,
    {
        I2cConfig { reset_threshold: 10, channel_fault_threshold: 5, relay_verify_interval: 10 }
    }
}

impl Default for GatewayConfig {
    /// Every section at its default, no boards, an empty boards directory,
    /// no opto mapping, no built-in defaults.
    fn default() -> (c: Self)
        ensures
            c.server.host@ == "0.0.0.0"@,
            c.server.port == 502,
            c.server.health_port is None,
            !c.server.single_slave,
            c.logging.interval == 5,
            c.logging.file is None,
            c.logging.retention == 7,
            c.i2c.reset_threshold == 10,
            c.i2c.channel_fault_threshold == 5,
            c.i2c.relay_verify_interval == 10,
            c.board@.len() == 0,
            c.boards_dir@ == Seq::<char>::empty(),
            !c.map_opto_to_reg,
            !c.builtin_defaults,
    {
        GatewayConfig {
            server: ServerConfig::default(),
            logging: LoggingConfig::default(),
            i2c: I2cConfig::default(),
            board: Vec::new(),
            boards_dir: String::new(),
            map_opto_to_reg: false,
            builtin_defaults: false,
        }
    }
}

/// The configuration file of a development checkout.
pub const LOCAL_CONFIG_PATH: &'static str = "sequent-gateway.toml";

/// The configuration file of an installed gateway.
pub const SYSTEM_CONFIG_PATH: &'static str = "/etc/sequent-gateway/sequent-gateway.toml";

impl GatewayConfig {
    /// The configuration file to load when none is given: the local file
    /// (development) when it exists, else the system file (production)
    /// when it exists, else none.
    pub fn default_path(local_exists: bool, system_exists: bool) -> (p: Option<String>)
        ensures
            local_exists ==> (p matches Some(s) && s@ == LOCAL_CONFIG_PATH@),
            !local_exists && system_exists ==> (p matches Some(s) && s@ == SYSTEM_CONFIG_PATH@),
            !local_exists && !system_exists ==> p is None,
    {
        if local_exists {
            return Some(String::from_str(LOCAL_CONFIG_PATH));
        }
        if system_exists {
            return Some(String::from_str(SYSTEM_CONFIG_PATH));
        }
        None
    }
}

} // verus!
