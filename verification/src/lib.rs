//! Verified core of a Modbus TCP ↔ I²C gateway for Sequent Microsystems HATs.
pub mod databank;
pub mod registers;
pub mod slave_map;
pub mod modbus;
pub mod cache;
pub mod channel_watchdog;
pub mod i2c_recovery;
pub mod board_def;
pub mod hal;
pub mod board_registry;
pub mod text;
pub mod health;
pub mod validate;
pub mod poll;
pub mod ranking;
pub mod cli;
pub mod config;
pub mod configure;
pub mod gateway;
