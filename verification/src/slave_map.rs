//! Multi-slave addressing for Modbus TCP.
//!
//! Routes Modbus requests by Unit ID to the correct slice of the shared
//! [`DataBank`](crate::databank::DataBank).
//!
//! | Mode            | Behaviour                                            |
//! |-----------------|------------------------------------------------------|
//! | Multi-slave     | Each board has its own Unit ID and its own address 0. |
//! | Single-slave    | Flat memory map on any Unit ID.                       |
//!
//! | Slave | Register Type       | Slave Addr | DataBank Addr |
//! |-------|---------------------|------------|---------------|
//! | Relay | Coils 0–15          | 0–15       | 0–15          |
//! | Ind   | Coils 0–3           | 0–3        | 16–19         |
//! | Ind   | Discrete Inputs 0–7 | 0–7        | 0–7           |
//! | Ind   | Holding Regs 0–15   | 0–15       | 0–15          |
use vstd::prelude::*;

use crate::databank::{COIL_COUNT, DISCRETE_INPUT_COUNT, HOLDING_REGISTER_COUNT};

verus! {

/// Number of relay coils on the 16-Relay HAT.
pub const RELAY_COIL_COUNT: usize = 16;

/// Number of OD output coils on the Industrial HAT.
pub const IND_COIL_COUNT: usize = 4;

/// Offset of the OD coils in the flat data bank.
pub const IND_COIL_OFFSET: usize = 16;

/// Result of resolving a register request for a Unit ID: `offset` is the
/// first index in the flat data bank array, `max_count` the number of
/// registers available from there.
#[derive(Debug, Clone, Copy, PartialEq, Eq, Structural)]
pub struct Slice {
    pub offset: usize,
    pub max_count: usize,
}

/// Register type being accessed.
#[derive(Debug, Clone, Copy, PartialEq, Eq, Structural)]
pub enum RegType {
    Coils,
    DiscreteInputs,
    HoldingRegisters,
}

/// Addressing mode.
#[derive(Debug, Clone, Copy, PartialEq, Eq, Structural)]
pub enum SlaveMode {
    /// Each board has its own slave ID and register space starting at 0.
    Multi,
    /// Single flat memory map that accepts any unit ID.
    Single,
}

/// Routes Modbus unit IDs to data bank slices.
#[derive(Debug, Clone, Copy)]
pub struct SlaveMap {
    pub mode: SlaveMode,
    pub relay_slave_id: u8,
    pub ind_slave_id: u8,
}

/// The flat slice of a register type: the whole array of the data bank.
pub open spec fn spec_single_slice(reg_type: RegType) -> Slice {
    match reg_type {
        RegType::Coils => Slice { offset: 0, max_count: COIL_COUNT },
        RegType::DiscreteInputs => Slice { offset: 0, max_count: DISCRETE_INPUT_COUNT },
        RegType::HoldingRegisters => Slice { offset: 0, max_count: HOLDING_REGISTER_COUNT },
    }
}

/// The relay board exposes its 16 relay coils and nothing else.
pub open spec fn spec_relay_slice(reg_type: RegType) -> Slice {
    match reg_type {
        RegType::Coils => Slice { offset: 0, max_count: RELAY_COIL_COUNT },
        _ => Slice { offset: 0, max_count: 0 },
    }
}

/// The industrial board exposes the OD coils (offset 16), the discrete
/// inputs and the holding registers.
pub open spec fn spec_ind_slice(reg_type: RegType) -> Slice {
    match reg_type {
        RegType::Coils => Slice { offset: IND_COIL_OFFSET, max_count: IND_COIL_COUNT },
        RegType::DiscreteInputs => Slice { offset: 0, max_count: DISCRETE_INPUT_COUNT },
        RegType::HoldingRegisters => Slice { offset: 0, max_count: HOLDING_REGISTER_COUNT },
    }
}

/// Routing of `(unit_id, reg_type)`: the relay slave ID wins when both
/// IDs are equal; an unknown unit ID in multi-slave mode resolves to nothing.
pub open spec fn spec_resolve(map: SlaveMap, unit_id: u8, reg_type: RegType) -> Option<Slice> {
    match map.mode {
        SlaveMode::Single => Some(spec_single_slice(reg_type)),
        SlaveMode::Multi => if unit_id == map.relay_slave_id {
            Some(spec_relay_slice(reg_type))
        } else if unit_id == map.ind_slave_id {
            Some(spec_ind_slice(reg_type))
        } else {
            None
        },
    }
}

impl SlaveMap {
    /// Create a slave map; `single_slave` selects the flat mode.
    pub fn new(relay_slave_id: u8, ind_slave_id: u8, single_slave: bool) -> (m: Self)
        ensures
            m.mode == (if single_slave { SlaveMode::Single } else { SlaveMode::Multi }),
            m.relay_slave_id == relay_slave_id,
            m.ind_slave_id == ind_slave_id,
    {
        SlaveMap {
            mode: if single_slave { SlaveMode::Single } else { SlaveMode::Multi },
            relay_slave_id,
            ind_slave_id,
        }
    }

    /// Resolve a register request into a data bank slice; `None` when the
    /// unit ID is not recognised (Modbus exception 0x0B).
    pub fn resolve(&self, unit_id: u8, reg_type: RegType) -> (r: Option<Slice>)
        ensures
            r == spec_resolve(*self, unit_id, reg_type),
    {
        match self.mode {
            SlaveMode::Single => Some(self.single_slice(reg_type)),
            SlaveMode::Multi => self.multi_slice(unit_id, reg_type),
        }
    }

    fn single_slice(&self, reg_type: RegType) -> (s: Slice)
        ensures
            s == spec_single_slice(reg_type),
    {
        match reg_type {
            RegType::Coils => Slice { offset: 0, max_count: COIL_COUNT },
            RegType::DiscreteInputs => Slice { offset: 0, max_count: DISCRETE_INPUT_COUNT },
            RegType::HoldingRegisters => Slice { offset: 0, max_count: HOLDING_REGISTER_COUNT },
        }
    }

    fn multi_slice(&self, unit_id: u8, reg_type: RegType) -> (r: Option<Slice>)
        requires
            self.mode == SlaveMode::Multi,
        ensures
            r == spec_resolve(*self, unit_id, reg_type),
    {
        if unit_id == self.relay_slave_id {
            self.relay_slice(reg_type)
        } else if unit_id == self.ind_slave_id {
            self.ind_slice(reg_type)
        } else {
            None
        }
    }

    fn relay_slice(&self, reg_type: RegType) -> (r: Option<Slice>)
        ensures
            r == Some(spec_relay_slice(reg_type)),
    {
        match reg_type {
            RegType::Coils => Some(Slice { offset: 0, max_count: RELAY_COIL_COUNT }),
            RegType::DiscreteInputs | RegType::HoldingRegisters => Some(
                Slice { offset: 0, max_count: 0 },
            ),
        }
    }

    fn ind_slice(&self, reg_type: RegType) -> (r: Option<Slice>)
        ensures
            r == Some(spec_ind_slice(reg_type)),
    {
        match reg_type {
            RegType::Coils => Some(Slice { offset: IND_COIL_OFFSET, max_count: IND_COIL_COUNT }),
            RegType::DiscreteInputs => Some(Slice { offset: 0, max_count: DISCRETE_INPUT_COUNT }),
            RegType::HoldingRegisters => Some(
                Slice { offset: 0, max_count: HOLDING_REGISTER_COUNT },
            ),
        }
    }
}

/// Every slice a map resolves to lies inside the data bank array of its
/// register type, so a request inside the slice never reaches past the bank.
pub proof fn lemma_resolved_slice_in_bank(map: SlaveMap, unit_id: u8, reg_type: RegType)
    ensures
        spec_resolve(map, unit_id, reg_type) matches Some(s) ==> s.offset + s.max_count
            <= match reg_type {
            RegType::Coils => COIL_COUNT,
            RegType::DiscreteInputs => DISCRETE_INPUT_COUNT,
            RegType::HoldingRegisters => HOLDING_REGISTER_COUNT,
        },
{
}

/// In single-slave mode every unit ID resolves, and to the same slice.
pub proof fn lemma_single_slave_ignores_unit_id(map: SlaveMap, a: u8, b: u8, reg_type: RegType)
    requires
        map.mode == SlaveMode::Single,
    ensures
        spec_resolve(map, a, reg_type) is Some,
        spec_resolve(map, a, reg_type) == spec_resolve(map, b, reg_type),
{
}

/// In multi-slave mode a unit ID resolves if and only if it is one of the
/// two configured slave IDs.
pub proof fn lemma_multi_slave_known_ids(map: SlaveMap, unit_id: u8, reg_type: RegType)
    requires
        map.mode == SlaveMode::Multi,
    ensures
        spec_resolve(map, unit_id, reg_type) is Some <==> (unit_id == map.relay_slave_id
            || unit_id == map.ind_slave_id),
{
}

} // verus!
