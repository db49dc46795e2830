//! Shared Modbus data bank.
//!
//! Central state shared between the Modbus TCP server (reads and writes
//! from clients) and the I²C poll loop (hardware I/O).
//!
//! | Register Type        | Address | Description                               |
//! |----------------------|---------|-------------------------------------------|
//! | Coils (R/W)          | 0–15    | 16-Relay board, relays 1–16               |
//! | Coils (R/W)          | 16–19   | Industrial board, open-drain outputs 1–4  |
//! | Discrete Inputs      | 0–7     | Industrial board, opto-inputs 1–8         |
//! | Holding Registers    | 0–7     | 4-20 mA inputs (mA × 100)                 |
//! | Holding Registers    | 8       | PSU voltage (V × 100)                     |
//! | Holding Registers    | 10–13   | 0-10 V inputs (V × 100)                   |
//! | Holding Registers    | 15      | Opto-input bitmask (optional)             |
//! | Holding Registers    | 16–19   | 0-10 V outputs (V × 100)                  |
//! | Holding Registers    | 20–23   | 4-20 mA outputs (mA × 100)                |
//! | Holding Registers    | 24      | Relay read-back bitmask                   |
use vstd::prelude::*;

verus! {

/// Total number of coils: 16 relays + 4 OD outputs.
pub const COIL_COUNT: usize = 20;

/// Total number of discrete inputs: 8 opto-isolated inputs.
pub const DISCRETE_INPUT_COUNT: usize = 8;

/// Total number of holding registers.
pub const HOLDING_REGISTER_COUNT: usize = 25;

/// First holding register of the 0-10 V outputs.
pub const HR_U0_10_OUT_BASE: usize = 16;

/// First holding register of the 4-20 mA outputs.
pub const HR_I4_20_OUT_BASE: usize = 20;

/// Holding register with the last relay read-back bitmask.
pub const HR_RELAY_READBACK: usize = 24;

/// Shared Modbus data bank: the poll loop writes inputs and reads coils;
/// the Modbus server reads everything and writes coils.
pub struct DataBank {
    pub coils: [bool; COIL_COUNT],
    pub discrete_inputs: [bool; DISCRETE_INPUT_COUNT],
    pub holding_registers: [u16; HOLDING_REGISTER_COUNT],
}

impl DataBank {
    /// An all-zero data bank: every coil and input off, every register 0.
    pub fn new() -> (db: Self)
        ensures
            db.coils@ == Seq::new(COIL_COUNT as nat, |i: int| false),
            db.discrete_inputs@ == Seq::new(DISCRETE_INPUT_COUNT as nat, |i: int| false),
            db.holding_registers@ == Seq::new(HOLDING_REGISTER_COUNT as nat, |i: int| 0u16),
    {
        let db = DataBank {
            coils: [false; COIL_COUNT],
            discrete_inputs: [false; DISCRETE_INPUT_COUNT],
            holding_registers: [0u16; HOLDING_REGISTER_COUNT],
        };
        assert(db.coils@ =~= Seq::new(COIL_COUNT as nat, |i: int| false));
        assert(db.discrete_inputs@ =~= Seq::new(DISCRETE_INPUT_COUNT as nat, |i: int| false));
        assert(db.holding_registers@ =~= Seq::new(HOLDING_REGISTER_COUNT as nat, |i: int| 0u16));
        db
    }
}

impl Default for DataBank {
    fn default() -> (db: Self)
        ensures
            db.coils@ == Seq::new(COIL_COUNT as nat, |i: int| false),
            db.discrete_inputs@ == Seq::new(DISCRETE_INPUT_COUNT as nat, |i: int| false),
            db.holding_registers@ == Seq::new(HOLDING_REGISTER_COUNT as nat, |i: int| 0u16),
    {
        Self::new()
    }
}

} // verus!
