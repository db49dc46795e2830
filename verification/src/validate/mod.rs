//! Hardware validation: scenarios built from board definitions, the
//! runner's decisions, the protocol side of its Modbus client, and the
//! PASS/FAIL report.
pub mod checks;
pub mod client;
pub mod results;
pub mod scenario;
pub mod steps;
