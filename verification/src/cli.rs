//! Command-line options of the gateway, as plain values.
//!
//! Paths are held as text.  The application parses the command line into
//! these types.
use vstd::prelude::*;

verus! {

/// Modbus TCP ↔ I²C gateway options.
#[derive(Debug, Clone)]
pub struct Cli {
    /// Board types to load (`megaind`, `relay16`, `relay8`, …); empty means
    /// `megaind` + `relay16`.
    pub boards: Vec<String>,
    /// Fall back to compiled-in register maps when no TOML file is found
    /// (deprecated).
    pub builtin_defaults: bool,
    /// IP address of the Modbus TCP server (default `0.0.0.0`).
    pub host: String,
    /// TCP port of the Modbus TCP server (default 502).
    pub port: u16,
    /// Map the opto-input bitmask to holding register 15.
    pub map_opto_to_reg: bool,
    /// I²C stack level of the Industrial HAT, 0–7 (default 1).
    pub ind_stack: u8,
    /// I²C stack level of the relay HAT, 0–7 (default 0).
    pub relay_stack: u8,
    /// Directory of board definition TOML files (default `boards`).
    pub boards_dir: String,
    /// Heartbeat log interval in seconds (default 5).
    pub log_interval: u64,
    /// Consecutive I²C failures before bus recovery, 0 = disabled (default 10).
    pub i2c_reset_threshold: u32,
    /// Modbus slave ID of the relay HAT, 1–247 (default 1).
    pub relay_slave_id: u8,
    /// Modbus slave ID of the Industrial HAT, 1–247 (default 2).
    pub ind_slave_id: u8,
    /// One flat slave for every unit ID.
    pub single_slave: bool,
    /// Path of a daily-rotated log file.
    pub log_file: Option<String>,
    /// Rotated log files to keep (default 7).
    pub log_retention: usize,
    /// Consecutive per-channel failures before FAULT, 0 = disabled (default 5).
    pub channel_fault_threshold: u32,
    /// Poll ticks between relay read-back checks, 0 = disabled (default 10).
    pub relay_verify_interval: u32,
    /// TCP port of the health endpoint (disabled when unset).
    pub health_port: Option<u16>,
    /// Path of a configuration file.
    pub config: Option<String>,
    /// Subcommand.
    pub command: Option<Command>,
}

/// Subcommands.
#[derive(Debug, Clone)]
pub enum Command {
    /// Run the hardware validation tests.
    Validate(ValidateArgs),
    /// Launch the interactive configuration TUI.
    Configure(ConfigureArgs),
}

/// Options of `validate`.
#[derive(Debug, Clone)]
pub struct ValidateArgs {
    /// Gateway binary to spawn (default: the running executable).
    pub gateway_bin: Option<String>,
    /// Board types to validate (`.toml` names in `boards_dir`); empty
    /// means an interactive choice.
    pub boards: Vec<String>,
    /// Directory of board definition TOML files (default `boards`).
    pub boards_dir: String,
    /// Single-slave (flat) Modbus addressing.
    pub single_slave: bool,
    /// Modbus slave ID of the relay board (default 1).
    pub relay_slave_id: u8,
    /// Modbus slave ID of the industrial HAT (default 2).
    pub ind_slave_id: u8,
    /// I²C stack level of the industrial HAT (default 1).
    pub ind_stack: u8,
    /// I²C stack level of the relay HAT (default 0).
    pub relay_stack: u8,
    /// Modbus port during validation (default 502).
    pub modbus_port: u16,
    /// Health endpoint port during validation (default 8080).
    pub health_port: u16,
    /// Skip the output write tests.
    pub skip_writes: bool,
    /// Stability test duration in seconds (default 5).
    pub stability_duration: u64,
    /// Seconds to wait for the health endpoint at start-up (default 10).
    pub startup_timeout: u64,
}

/// Options of `configure`.
#[derive(Debug, Clone)]
pub struct ConfigureArgs {
    /// Directory of board definition TOML files (default `boards`).
    pub boards_dir: String,
    /// Output path of the configuration file (default `sequent-gateway.toml`).
    pub output: String,
    /// Directory to install the board TOML files into.
    pub install_boards: Option<String>,
}

} // verus!
