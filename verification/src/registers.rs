//! I²C register map of the Sequent Microsystems HATs.
//!
//! MegaInd (Industrial) HAT: base address `0x50 + stack_id`.
//! 16-Relay HAT: base address `0x20 + stack_id`, set/clr convention.
use vstd::prelude::*;

verus! {

/// Base I²C address for the MegaInd Industrial HAT.
pub const MEGAIND_BASE_ADDR: u16 = 0x50;

/// Current relay/OD/LED output state bitmask (read).
pub const I2C_MEM_RELAY_VAL: u8 = 0x00;

/// Write a channel number (1-based) to SET (turn ON) an output.
pub const I2C_MEM_RELAY_SET: u8 = 0x01;

/// Write a channel number (1-based) to CLEAR (turn OFF) an output.
pub const I2C_MEM_RELAY_CLR: u8 = 0x02;

/// Opto-isolated input bitmask, one bit per channel (read-only).
pub const I2C_MEM_OPTO_IN_VAL: u8 = 0x03;

/// 0-10V analog output base (4 channels × 2 bytes, LE, millivolts).
pub const I2C_MEM_U0_10_OUT_VAL1: u8 = 0x04;

/// 4-20mA analog output base (4 channels × 2 bytes, LE, milliamps × 1000).
pub const I2C_MEM_I4_20_OUT_VAL1: u8 = 0x0C;

/// Open-drain PWM output base (4 channels × 2 bytes, LE, 0–10000).
pub const I2C_MEM_OD_PWM1: u8 = 0x14;

/// 0-10V analog input base (4 channels × 2 bytes, LE, millivolts).
pub const I2C_MEM_U0_10_IN_VAL1: u8 = 0x1C;

/// ±10V analog input base (4 channels × 2 bytes, LE, millivolts + 10000 offset).
pub const I2C_MEM_U_PM_10_IN_VAL1: u8 = 0x24;

/// 4-20mA analog input base (8 channels × 2 bytes, LE, milliamps × 1000).
pub const I2C_MEM_I4_20_IN_VAL1: u8 = 0x2C;

/// Calibration value register.
pub const I2C_MEM_CALIB_VALUE: u8 = 0x3C;

/// Modbus RS-485 settings base.
pub const I2C_MODBUS_SETTINGS_ADD: u8 = 0x41;

/// RTC year register (base for the 6-byte date/time block).
pub const I2C_RTC_YEAR_ADD: u8 = 0x46;

/// Watchdog reset register.
pub const I2C_MEM_WDT_RESET_ADD: u8 = 0x53;

/// Opto rising-edge counter enable bitmask.
pub const I2C_MEM_OPTO_RISING_ENABLE: u8 = 0x67;

/// Opto falling-edge counter enable bitmask.
pub const I2C_MEM_OPTO_FALLING_ENABLE: u8 = 0x68;

/// Write a channel number to reset its opto counter.
pub const I2C_MEM_OPTO_CH_CONT_RESET: u8 = 0x69;

/// Opto counter base (8 channels × 2 bytes, LE).
pub const I2C_MEM_OPTO_COUNT1: u8 = 0x6A;

/// CPU temperature (1 byte, °C, read-only).
pub const I2C_MEM_DIAG_TEMPERATURE: u8 = 0x72;

/// 24V supply rail voltage (2 bytes LE, millivolts, read-only).
pub const I2C_MEM_DIAG_24V: u8 = 0x73;

/// Raspberry Pi supply rail (2 bytes LE, millivolts, read-only).
pub const I2C_MEM_DIAG_5V: u8 = 0x75;

/// Firmware revision, major byte.
pub const I2C_MEM_REVISION_MAJOR: u8 = 0x78;

/// Firmware revision, minor byte.
pub const I2C_MEM_REVISION_MINOR: u8 = 0x79;

/// 1-Wire bus device count.
pub const I2C_MEM_1WB_DEV: u8 = 0x93;

/// CPU/board reset trigger.
pub const I2C_MEM_CPU_RESET: u8 = 0xAA;

/// 1-Wire temperature sensor data start.
pub const I2C_MEM_1WB_T1: u8 = 0xAE;

/// Base I²C address for the 16-Relay HAT.
pub const RELAY16_BASE_ADDR: u16 = 0x20;

/// Current relay state bitmask (2 bytes LE, read-only).
pub const RELAY16_MEM_RELAY_VAL: u8 = 0x00;

/// Write a relay number (1–16) to SET (turn ON).
pub const RELAY16_MEM_RELAY_SET: u8 = 0x01;

/// Write a relay number (1–16) to CLEAR (turn OFF).
pub const RELAY16_MEM_RELAY_CLR: u8 = 0x02;

/// Scaling factor between physical units and raw register units:
/// raw register value = physical value × 1000.
pub const VOLT_TO_MILLIVOLT: u32 = 1000;

/// Number of 4-20mA input channels on the Industrial HAT.
pub const I4_20_IN_CHANNELS: usize = 8;

/// Number of 0-10V input channels on the Industrial HAT.
pub const U0_10_IN_CHANNELS: usize = 4;

/// Number of opto-isolated input channels.
pub const OPTO_CHANNELS: usize = 8;

/// Number of open-drain output channels on the Industrial HAT.
pub const OD_CHANNELS: usize = 4;

/// Number of relays on the 16-Relay HAT.
pub const RELAY16_CHANNELS: usize = 16;

/// Number of 0-10V output channels on the Industrial HAT.
pub const U0_10_OUT_CHANNELS: usize = 4;

/// Number of 4-20mA output channels on the Industrial HAT.
pub const I4_20_OUT_CHANNELS: usize = 4;

} // verus!
