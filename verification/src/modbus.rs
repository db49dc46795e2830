//! Modbus TCP protocol core: MBAP framing and the PDU handlers.
//!
//! | FC   | Name                   | Direction |
//! |------|------------------------|-----------|
//! | 0x01 | Read Coils             | Read      |
//! | 0x02 | Read Discrete Inputs   | Read      |
//! | 0x03 | Read Holding Registers | Read      |
//! | 0x05 | Write Single Coil      | Write     |
//! | 0x06 | Write Single Register  | Write     |
//! | 0x0F | Write Multiple Coils   | Write     |
//! | 0x10 | Write Multiple Registers | Write   |
//!
//! Only the analog-output holding registers (0-10 V at HR 16–19, 4-20 mA
//! at HR 20–23) are writable; the input registers and the relay read-back
//! register belong to the poll loop.
//!
//! The unit ID of a frame selects, through the [`SlaveMap`], the slice of
//! the data bank a request addresses: in single-slave mode every unit ID
//! sees the whole bank; in multi-slave mode the relay board and the
//! Industrial board each see their own registers from address 0, and an
//! unknown unit ID gets exception 0x0B. The handlers work on a
//! [`DataBank`] that the caller has locked for the duration of the request.
use vstd::prelude::*;

use crate::databank::{
    COIL_COUNT, DataBank, DISCRETE_INPUT_COUNT, HOLDING_REGISTER_COUNT, HR_RELAY_READBACK,
    HR_U0_10_OUT_BASE,
};
use crate::slave_map::{lemma_resolved_slice_in_bank, spec_resolve, RegType, SlaveMap, SlaveMode};

verus! {

/// FC 0x01 Read Coils.
pub const FC_READ_COILS: u8 = 0x01;

/// FC 0x02 Read Discrete Inputs.
pub const FC_READ_DISCRETE_INPUTS: u8 = 0x02;

/// FC 0x03 Read Holding Registers.
pub const FC_READ_HOLDING_REGISTERS: u8 = 0x03;

/// FC 0x05 Write Single Coil.
pub const FC_WRITE_SINGLE_COIL: u8 = 0x05;

/// FC 0x0F Write Multiple Coils.
pub const FC_WRITE_MULTIPLE_COILS: u8 = 0x0F;

/// FC 0x06 Write Single Register.
pub const FC_WRITE_SINGLE_REGISTER: u8 = 0x06;

/// FC 0x10 Write Multiple Registers.
pub const FC_WRITE_MULTIPLE_REGISTERS: u8 = 0x10;

/// Exception 0x01: function code not supported.
pub const EX_ILLEGAL_FUNCTION: u8 = 0x01;

/// Exception 0x02: address range outside the data bank.
pub const EX_ILLEGAL_DATA_ADDRESS: u8 = 0x02;

/// Exception 0x03: malformed or out-of-range request value.
pub const EX_ILLEGAL_DATA_VALUE: u8 = 0x03;

// ── Specification ────────────────────────────────────────────────────

/// Big-endian 16-bit value of two bytes.
pub open spec fn be16(hi: u8, lo: u8) -> int {
    hi * 256 + lo
}

/// Bit `b` (0 = least significant) of a byte.
pub open spec fn byte_bit(byte: u8, b: int) -> bool {
    (byte >> (b as u8)) & 1u8 == 1u8
}

/// An exception response PDU.
pub open spec fn spec_exception(fc: u8, code: u8) -> Seq<u8> {
    seq![fc | 0x80u8, code]
}

/// Number of bytes needed to pack `q` bits.
pub open spec fn packed_len(q: int) -> int {
    (q + 7) / 8
}

/// `r` is the successful read-bits response for `q` bits from `start`:
/// function code, byte count, then the bits packed LSB first, with the
/// unused high bits of the last byte clear.
pub open spec fn packed_bits_response(fc: u8, bits: Seq<bool>, start: int, q: int, r: Seq<u8>) -> bool {
    &&& r.len() == 2 + packed_len(q)
    &&& r[0] == fc
    &&& r[1] == packed_len(q) as u8
    &&& forall|k: int, b: int|
        0 <= k < packed_len(q) && 0 <= b < 8 ==> (#[trigger] byte_bit(r[2 + k], b)) == (8 * k + b
            < q && bits[start + 8 * k + b])
}

/// Response of FC 0x01 / 0x02 to request `data` over the bit array `bits`.
pub open spec fn spec_read_bits_response(fc: u8, data: Seq<u8>, bits: Seq<bool>, r: Seq<u8>) -> bool {
    if data.len() < 4 {
        r == spec_exception(fc, EX_ILLEGAL_DATA_VALUE)
    } else {
        let start = be16(data[0], data[1]);
        let q = be16(data[2], data[3]);
        if q == 0 || q > 2000 {
            r == spec_exception(fc, EX_ILLEGAL_DATA_VALUE)
        } else if start + q > bits.len() {
            r == spec_exception(fc, EX_ILLEGAL_DATA_ADDRESS)
        } else {
            packed_bits_response(fc, bits, start, q, r)
        }
    }
}

/// The register bytes of a successful FC 0x03 response, big-endian.
pub open spec fn register_bytes(regs: Seq<u16>, start: int, q: int) -> Seq<u8> {
    Seq::new(
        (2 * q) as nat,
        |j: int|
            if j % 2 == 0 {
                (regs[start + j / 2] / 256) as u8
            } else {
                (regs[start + j / 2] % 256) as u8
            },
    )
}

/// Response of FC 0x03 to request `data` over the holding registers.
pub open spec fn spec_read_registers(fc: u8, data: Seq<u8>, regs: Seq<u16>) -> Seq<u8> {
    if data.len() < 4 {
        spec_exception(fc, EX_ILLEGAL_DATA_VALUE)
    } else {
        let start = be16(data[0], data[1]);
        let q = be16(data[2], data[3]);
        if q == 0 || q > 125 {
            spec_exception(fc, EX_ILLEGAL_DATA_VALUE)
        } else if start + q > regs.len() {
            spec_exception(fc, EX_ILLEGAL_DATA_ADDRESS)
        } else {
            seq![fc, (2 * q) as u8] + register_bytes(regs, start, q)
        }
    }
}

/// Response of FC 0x05 to request `data` over the coils.
pub open spec fn spec_write_single_coil(fc: u8, data: Seq<u8>, coils: Seq<bool>) -> Seq<u8> {
    if data.len() < 4 {
        spec_exception(fc, EX_ILLEGAL_DATA_VALUE)
    } else {
        let value = be16(data[2], data[3]);
        if value != 0xFF00 && value != 0 {
            spec_exception(fc, EX_ILLEGAL_DATA_VALUE)
        } else if be16(data[0], data[1]) >= coils.len() {
            spec_exception(fc, EX_ILLEGAL_DATA_ADDRESS)
        } else {
            seq![fc, data[0], data[1], data[2], data[3]]
        }
    }
}

/// Coils after FC 0x05: `0xFF00` turns the addressed coil on, `0x0000` off.
pub open spec fn spec_coils_after_single(data: Seq<u8>, coils: Seq<bool>) -> Seq<bool> {
    if data.len() < 4 {
        coils
    } else {
        let addr = be16(data[0], data[1]);
        let value = be16(data[2], data[3]);
        if (value != 0xFF00 && value != 0) || addr >= coils.len() {
            coils
        } else {
            coils.update(addr, value == 0xFF00)
        }
    }
}

/// Whether FC 0x0F request `data` is well formed for `n` coils.
pub open spec fn multiple_coils_ok(data: Seq<u8>, n: int) -> bool {
    &&& data.len() >= 5
    &&& 1 <= be16(data[2], data[3]) <= 1968
    &&& data[4] == packed_len(be16(data[2], data[3]))
    &&& data.len() >= 5 + data[4]
    &&& be16(data[0], data[1]) + be16(data[2], data[3]) <= n
}

/// Response of FC 0x0F to request `data` over the coils.
pub open spec fn spec_write_multiple_coils(fc: u8, data: Seq<u8>, coils: Seq<bool>) -> Seq<u8> {
    if data.len() < 5 {
        spec_exception(fc, EX_ILLEGAL_DATA_VALUE)
    } else {
        let q = be16(data[2], data[3]);
        if q == 0 || q > 1968 || data[4] != packed_len(q) || data.len() < 5 + data[4] {
            spec_exception(fc, EX_ILLEGAL_DATA_VALUE)
        } else if be16(data[0], data[1]) + q > coils.len() {
            spec_exception(fc, EX_ILLEGAL_DATA_ADDRESS)
        } else {
            seq![fc, data[0], data[1], data[2], data[3]]
        }
    }
}

/// Coils after FC 0x0F: the `q` coils from `start` take the packed bits of
/// the request, LSB first; every other coil keeps its value.
pub open spec fn spec_coils_after_multiple(data: Seq<u8>, coils: Seq<bool>) -> Seq<bool> {
    if multiple_coils_ok(data, coils.len() as int) {
        let start = be16(data[0], data[1]);
        let q = be16(data[2], data[3]);
        Seq::new(
            coils.len(),
            |j: int|
                if start <= j < start + q {
                    byte_bit(data[5 + (j - start) / 8], (j - start) % 8)
                } else {
                    coils[j]
                },
        )
    } else {
        coils
    }
}

/// Whether holding register `a` may be written over Modbus: the analog
/// outputs, HR 16–23.
pub open spec fn spec_writable_register(a: int) -> bool {
    HR_U0_10_OUT_BASE <= a < HR_RELAY_READBACK
}

/// Response of FC 0x06 to request `data` over all holding registers.
pub open spec fn spec_write_single_register(fc: u8, data: Seq<u8>) -> Seq<u8> {
    spec_write_single_register_at(fc, data, 0, HOLDING_REGISTER_COUNT as int)
}

/// Holding registers after FC 0x06 over all holding registers: the
/// addressed analog output takes the request's value.
pub open spec fn spec_regs_after_single(data: Seq<u8>, regs: Seq<u16>) -> Seq<u16> {
    spec_regs_after_single_at(data, regs, 0, HOLDING_REGISTER_COUNT as int)
}

/// Response of FC 0x10 to request `data` over all holding registers.
pub open spec fn spec_write_multiple_registers(fc: u8, data: Seq<u8>) -> Seq<u8> {
    spec_write_multiple_registers_at(fc, data, 0, HOLDING_REGISTER_COUNT as int)
}

/// Holding registers after FC 0x10 over all holding registers: the `q`
/// registers from `start` take the request's big-endian values.
pub open spec fn spec_regs_after_multiple(data: Seq<u8>, regs: Seq<u16>) -> Seq<u16> {
    spec_regs_after_multiple_at(data, regs, 0, HOLDING_REGISTER_COUNT as int)
}

// ── Bit lemmas ───────────────────────────────────────────────────────

proof fn lemma_or_bit(v: u8, i: u8, b: u8)
    requires
        i < 8,
        b < 8,
    ensures
        ((v | (1u8 << i)) >> b) & 1u8 == 1u8 <==> ((v >> b) & 1u8 == 1u8 || b == i),
{
    assert(((v | (1u8 << i)) >> b) & 1u8 == 1u8 <==> ((v >> b) & 1u8 == 1u8 || b == i))
        by (bit_vector)
        requires
            i < 8,
            b < 8,
    ;
}

proof fn lemma_zero_bit(b: u8)
    requires
        b < 8,
    ensures
        (0u8 >> b) & 1u8 != 1u8,
{
    assert((0u8 >> b) & 1u8 != 1u8) by (bit_vector);
}

// ── Executable handlers ──────────────────────────────────────────────

/// Build an exception response PDU.
pub fn exception(function_code: u8, exception_code: u8) -> (r: Vec<u8>)
    ensures
        r@ == spec_exception(function_code, exception_code),
{
    let mut v: Vec<u8> = Vec::new();
    v.push(function_code | 0x80);
    v.push(exception_code);
    v
}

/// Pack `quantity` bits of `bits` from `start` into a read-bits response.
fn pack_bits(fc: u8, bits: &[bool], start: usize, quantity: usize) -> (r: Vec<u8>)
    requires
        1 <= quantity <= 2000,
        start <= 65535,
        start + quantity <= bits@.len(),
    ensures
        packed_bits_response(fc, bits@, start as int, quantity as int, r@),
{
    let byte_count = (quantity + 7) / 8;
    let mut result: Vec<u8> = Vec::with_capacity(2 + byte_count);
    result.push(fc);
    result.push(byte_count as u8);
    let mut byte_idx: usize = 0;
    while byte_idx < byte_count
        invariant
            1 <= quantity <= 2000,
            start <= 65535,
            start + quantity <= bits@.len(),
            byte_count == packed_len(quantity as int),
            byte_idx <= byte_count,
            result@.len() == 2 + byte_idx,
            result@[0] == fc,
            result@[1] == byte_count as u8,
            forall|k: int, b: int|
                0 <= k < byte_idx && 0 <= b < 8 ==> (#[trigger] byte_bit(result@[2 + k], b)) == (8
                    * k + b < quantity && bits@[start + 8 * k + b]),
        decreases byte_count - byte_idx,
    {
        let mut byte_val: u8 = 0;
        let mut bit_idx: usize = 0;
        proof {
            assert forall|b: int| 0 <= b < 8 implies !#[trigger] byte_bit(byte_val, b) by {
                lemma_zero_bit(b as u8);
            }
        }
        while bit_idx < 8
            invariant
                1 <= quantity <= 2000,
                start <= 65535,
                start + quantity <= bits@.len(),
                byte_idx < byte_count,
                byte_count == packed_len(quantity as int),
                bit_idx <= 8,
                forall|b: int|
                    0 <= b < 8 ==> (#[trigger] byte_bit(byte_val, b)) == (b < bit_idx && 8
                        * byte_idx + b < quantity && bits@[start + 8 * byte_idx + b]),
            decreases 8 - bit_idx,
        {
            let idx = byte_idx * 8 + bit_idx;
            if idx < quantity && bits[start + idx] {
                let old_val = byte_val;
                byte_val = byte_val | (1u8 << (bit_idx as u8));
                proof {
                    assert forall|b: int| 0 <= b < 8 implies #[trigger] byte_bit(byte_val, b) == (
                    byte_bit(old_val, b) || b == bit_idx) by {
                        lemma_or_bit(old_val, bit_idx as u8, b as u8);
                    }
                }
            }
            bit_idx += 1;
        }
        let ghost before = result@;
        result.push(byte_val);
        proof {
            assert forall|k: int, b: int|
                0 <= k < byte_idx + 1 && 0 <= b < 8 implies (#[trigger] byte_bit(
                result@[2 + k],
                b,
            )) == (8 * k + b < quantity && bits@[start + 8 * k + b]) by {
                if k < byte_idx {
                    assert(result@[2 + k] == before[2 + k]);
                } else {
                    assert(result@[2 + k] == byte_val);
                }
            }
        }
        byte_idx += 1;
    }
    result
}

/// The `c` entries of `s` from `o`.
pub open spec fn window<T>(s: Seq<T>, o: int, c: int) -> Seq<T> {
    s.subrange(o, o + c)
}

/// `s` with its entries from `o` replaced by `w`.
pub open spec fn splice<T>(s: Seq<T>, o: int, w: Seq<T>) -> Seq<T> {
    s.subrange(0, o) + w + s.subrange(o + w.len(), s.len() as int)
}

/// Coils after FC 0x05 addressed to the window of `c` coils from `o`.
pub open spec fn spec_coils_after_single_at(data: Seq<u8>, coils: Seq<bool>, o: int, c: int) -> Seq<
    bool,
> {
    splice(coils, o, spec_coils_after_single(data, window(coils, o, c)))
}

/// Coils after FC 0x0F addressed to the window of `c` coils from `o`.
pub open spec fn spec_coils_after_multiple_at(data: Seq<u8>, coils: Seq<bool>, o: int, c: int) -> Seq<
    bool,
> {
    splice(coils, o, spec_coils_after_multiple(data, window(coils, o, c)))
}

/// Response of FC 0x06 addressed to the window of `c` registers from `o`:
/// the register must lie in the window and be an analog output.
pub open spec fn spec_write_single_register_at(fc: u8, data: Seq<u8>, o: int, c: int) -> Seq<u8> {
    if data.len() < 4 {
        spec_exception(fc, EX_ILLEGAL_DATA_VALUE)
    } else if be16(data[0], data[1]) >= c || !spec_writable_register(o + be16(data[0], data[1])) {
        spec_exception(fc, EX_ILLEGAL_DATA_ADDRESS)
    } else {
        seq![fc, data[0], data[1], data[2], data[3]]
    }
}

/// Holding registers after FC 0x06 addressed to the window of `c`
/// registers from `o`.
pub open spec fn spec_regs_after_single_at(data: Seq<u8>, regs: Seq<u16>, o: int, c: int) -> Seq<
    u16,
> {
    if data.len() >= 4 && be16(data[0], data[1]) < c && spec_writable_register(
        o + be16(data[0], data[1]),
    ) {
        regs.update(o + be16(data[0], data[1]), be16(data[2], data[3]) as u16)
    } else {
        regs
    }
}

/// Whether FC 0x10 request `data` is well formed and addresses writable
/// registers of the window of `c` registers from `o` only.
pub open spec fn multiple_registers_ok_at(data: Seq<u8>, o: int, c: int) -> bool {
    &&& data.len() >= 5
    &&& 1 <= be16(data[2], data[3]) <= 123
    &&& data[4] == 2 * be16(data[2], data[3])
    &&& data.len() >= 5 + data[4]
    &&& be16(data[0], data[1]) + be16(data[2], data[3]) <= c
    &&& HR_U0_10_OUT_BASE <= o + be16(data[0], data[1])
    &&& o + be16(data[0], data[1]) + be16(data[2], data[3]) <= HR_RELAY_READBACK
}

/// Response of FC 0x10 addressed to the window of `c` registers from `o`.
pub open spec fn spec_write_multiple_registers_at(fc: u8, data: Seq<u8>, o: int, c: int) -> Seq<u8> {
    if data.len() < 5 {
        spec_exception(fc, EX_ILLEGAL_DATA_VALUE)
    } else {
        let start = be16(data[0], data[1]);
        let q = be16(data[2], data[3]);
        if q == 0 || q > 123 || data[4] != 2 * q || data.len() < 5 + data[4] {
            spec_exception(fc, EX_ILLEGAL_DATA_VALUE)
        } else if start + q > c || o + start < HR_U0_10_OUT_BASE || o + start + q
            > HR_RELAY_READBACK {
            spec_exception(fc, EX_ILLEGAL_DATA_ADDRESS)
        } else {
            seq![fc, data[0], data[1], data[2], data[3]]
        }
    }
}

/// Holding registers after FC 0x10 addressed to the window of `c`
/// registers from `o`.
pub open spec fn spec_regs_after_multiple_at(data: Seq<u8>, regs: Seq<u16>, o: int, c: int) -> Seq<
    u16,
> {
    if multiple_registers_ok_at(data, o, c) {
        let start = o + be16(data[0], data[1]);
        let q = be16(data[2], data[3]);
        Seq::new(
            regs.len(),
            |j: int|
                if start <= j < start + q {
                    be16(data[5 + 2 * (j - start)], data[6 + 2 * (j - start)]) as u16
                } else {
                    regs[j]
                },
        )
    } else {
        regs
    }
}

/// FC 0x01 Read Coils / FC 0x02 Read Discrete Inputs, over the window of
/// `count` bits from `offset` (request addresses count from the window's
/// start).
///
/// Request `[start_addr: u16, quantity: u16]`; response
/// `[fc, byte_count, packed_bits…]`.
pub fn read_bits(
    fc: u8,
    data: &[u8],
    data_bank: &DataBank,
    is_coils: bool,
    offset: usize,
    count: usize,
) -> (r: Vec<u8>)
    requires
        offset + count <= if is_coils {
            COIL_COUNT
        } else {
            DISCRETE_INPUT_COUNT
        },
    ensures
        spec_read_bits_response(
            fc,
            data@,
            window(
                if is_coils {
                    data_bank.coils@
                } else {
                    data_bank.discrete_inputs@
                },
                offset as int,
                count as int,
            ),
            r@,
        ),
        r@.len() <= 252,
{
    if data.len() < 4 {
        return exception(fc, EX_ILLEGAL_DATA_VALUE);
    }
    let start = data[0] as usize * 256 + data[1] as usize;
    let quantity = data[2] as usize * 256 + data[3] as usize;
    if quantity == 0 || quantity > 2000 {
        return exception(fc, EX_ILLEGAL_DATA_VALUE);
    }
    let bits: &[bool] = if is_coils {
        &data_bank.coils
    } else {
        &data_bank.discrete_inputs
    };
    if start + quantity > count {
        return exception(fc, EX_ILLEGAL_DATA_ADDRESS);
    }
    let r = pack_bits(fc, bits, offset + start, quantity);
    proof {
        let w = window(bits@, offset as int, count as int);
        assert forall|k: int, b: int|
            0 <= k < packed_len(quantity as int) && 0 <= b < 8 implies (#[trigger] byte_bit(
            r@[2 + k],
            b,
        )) == (8 * k + b < quantity && w[start + 8 * k + b]) by {
            if 8 * k + b < quantity {
                assert(w[start + 8 * k + b] == bits@[offset + start + 8 * k + b]);
            }
        }
    }
    r
}

/// FC 0x03 Read Holding Registers over the window of `count` registers
/// from `offset`.
///
/// Request `[start_addr: u16, quantity: u16]`; response
/// `[fc, byte_count, reg_hi, reg_lo, …]`.
pub fn read_registers(fc: u8, data: &[u8], data_bank: &DataBank, offset: usize, count: usize) -> (r:
    Vec<u8>)
    requires
        offset + count <= HOLDING_REGISTER_COUNT,
    ensures
        r@ == spec_read_registers(
            fc,
            data@,
            window(data_bank.holding_registers@, offset as int, count as int),
        ),
        r@.len() <= 252,
{
    if data.len() < 4 {
        return exception(fc, EX_ILLEGAL_DATA_VALUE);
    }
    let start = data[0] as usize * 256 + data[1] as usize;
    let quantity = data[2] as usize * 256 + data[3] as usize;
    if quantity == 0 || quantity > 125 {
        return exception(fc, EX_ILLEGAL_DATA_VALUE);
    }
    if start + quantity > count {
        return exception(fc, EX_ILLEGAL_DATA_ADDRESS);
    }
    let byte_count = quantity * 2;
    let mut result: Vec<u8> = Vec::with_capacity(2 + byte_count);
    result.push(fc);
    result.push(byte_count as u8);
    let ghost w = window(data_bank.holding_registers@, offset as int, count as int);
    let mut i: usize = 0;
    while i < quantity
        invariant
            w == window(data_bank.holding_registers@, offset as int, count as int),
            offset + count <= HOLDING_REGISTER_COUNT,
            1 <= quantity <= 125,
            start + quantity <= count,
            i <= quantity,
            result@ == seq![fc, (2 * quantity) as u8] + register_bytes(w, start as int, i as int),
        decreases quantity - i,
    {
        let val = data_bank.holding_registers[offset + start + i];
        assert(val == w[start + i]);
        let ghost before = result@;
        result.push((val / 256) as u8);
        result.push((val % 256) as u8);
        proof {
            assert(result@ =~= seq![fc, (2 * quantity) as u8] + register_bytes(
                w,
                start as int,
                i + 1,
            ));
        }
        i += 1;
    }
    result
}

/// FC 0x05 Write Single Coil to the window of `count` coils from
/// `offset`.
///
/// Request `[addr: u16, value: u16]` with `0xFF00` = ON, `0x0000` = OFF;
/// the response echoes the request.
pub fn write_single_coil(
    fc: u8,
    data: &[u8],
    data_bank: &mut DataBank,
    offset: usize,
    count: usize,
) -> (r: Vec<u8>)
    requires
        offset + count <= COIL_COUNT,
    ensures
        r@ == spec_write_single_coil(
            fc,
            data@,
            window(old(data_bank).coils@, offset as int, count as int),
        ),
        final(data_bank).coils@ == spec_coils_after_single_at(
            data@,
            old(data_bank).coils@,
            offset as int,
            count as int,
        ),
        final(data_bank).discrete_inputs == old(data_bank).discrete_inputs,
        final(data_bank).holding_registers == old(data_bank).holding_registers,
{
    let ghost w = window(data_bank.coils@, offset as int, count as int);
    proof {
        assert(splice(data_bank.coils@, offset as int, w) =~= data_bank.coils@);
    }
    if data.len() < 4 {
        return exception(fc, EX_ILLEGAL_DATA_VALUE);
    }
    let addr = data[0] as usize * 256 + data[1] as usize;
    let value = data[2] as u16 * 256 + data[3] as u16;
    let state = if value == 0xFF00 {
        true
    } else if value == 0 {
        false
    } else {
        return exception(fc, EX_ILLEGAL_DATA_VALUE);
    };
    if addr >= count {
        return exception(fc, EX_ILLEGAL_DATA_ADDRESS);
    }
    data_bank.coils[offset + addr] = state;
    proof {
        assert(data_bank.coils@ =~= splice(old(data_bank).coils@, offset as int, w.update(addr as int, state)));
    }
    let mut result: Vec<u8> = Vec::with_capacity(5);
    result.push(fc);
    result.push(data[0]);
    result.push(data[1]);
    result.push(data[2]);
    result.push(data[3]);
    result
}

/// FC 0x0F Write Multiple Coils to the window of `count` coils from
/// `offset`.
///
/// Request `[start: u16, qty: u16, byte_count: u8, packed_bits…]`;
/// response `[fc, start: u16, qty: u16]`.
pub fn write_multiple_coils(
    fc: u8,
    data: &[u8],
    data_bank: &mut DataBank,
    offset: usize,
    count: usize,
) -> (r: Vec<u8>)
    requires
        offset + count <= COIL_COUNT,
    ensures
        r@ == spec_write_multiple_coils(
            fc,
            data@,
            window(old(data_bank).coils@, offset as int, count as int),
        ),
        final(data_bank).coils@ == spec_coils_after_multiple_at(
            data@,
            old(data_bank).coils@,
            offset as int,
            count as int,
        ),
        final(data_bank).discrete_inputs == old(data_bank).discrete_inputs,
        final(data_bank).holding_registers == old(data_bank).holding_registers,
{
    let ghost w = window(data_bank.coils@, offset as int, count as int);
    proof {
        assert(splice(data_bank.coils@, offset as int, w) =~= data_bank.coils@);
    }
    if data.len() < 5 {
        return exception(fc, EX_ILLEGAL_DATA_VALUE);
    }
    let start = data[0] as usize * 256 + data[1] as usize;
    let quantity = data[2] as usize * 256 + data[3] as usize;
    let byte_count = data[4] as usize;
    if quantity == 0 || quantity > 1968 || byte_count != (quantity + 7) / 8 {
        return exception(fc, EX_ILLEGAL_DATA_VALUE);
    }
    if data.len() < 5 + byte_count {
        return exception(fc, EX_ILLEGAL_DATA_VALUE);
    }
    if start + quantity > count {
        return exception(fc, EX_ILLEGAL_DATA_ADDRESS);
    }
    let ghost old_coils = data_bank.coils@;
    let mut i: usize = 0;
    while i < quantity
        invariant
            old_coils == old(data_bank).coils@,
            w == window(old_coils, offset as int, count as int),
            offset + count <= COIL_COUNT,
            multiple_coils_ok(data@, count as int),
            start == be16(data@[0], data@[1]),
            quantity == be16(data@[2], data@[3]),
            i <= quantity,
            data_bank.coils@.len() == COIL_COUNT,
            data_bank.discrete_inputs == old(data_bank).discrete_inputs,
            data_bank.holding_registers == old(data_bank).holding_registers,
            forall|j: int|
                0 <= j < COIL_COUNT ==> #[trigger] data_bank.coils@[j] == if offset + start <= j
                    < offset + start + i {
                    byte_bit(data@[5 + (j - offset - start) / 8], (j - offset - start) % 8)
                } else {
                    old_coils[j]
                },
        decreases quantity - i,
    {
        let byte_idx = i / 8;
        let bit_idx = i % 8;
        let bit = (data[5 + byte_idx] >> (bit_idx as u8)) & 1 == 1;
        data_bank.coils[offset + start + i] = bit;
        i += 1;
    }
    proof {
        let after = spec_coils_after_multiple(data@, w);
        assert forall|j: int| 0 <= j < COIL_COUNT implies #[trigger] data_bank.coils@[j] == splice(
            old_coils,
            offset as int,
            after,
        )[j] by {
            if offset <= j < offset + count {
                assert(after[j - offset] == if start <= j - offset < start + quantity {
                    byte_bit(data@[5 + (j - offset - start) / 8], (j - offset - start) % 8)
                } else {
                    w[j - offset]
                });
            }
        }
        assert(data_bank.coils@ =~= splice(old_coils, offset as int, after));
    }
    let mut result: Vec<u8> = Vec::with_capacity(5);
    result.push(fc);
    result.push(data[0]);
    result.push(data[1]);
    result.push(data[2]);
    result.push(data[3]);
    result
}

/// FC 0x06 Write Single Register to the window of `count` registers from
/// `offset`.
///
/// Request `[addr: u16, value: u16]` to an analog-output register; the
/// response echoes the request.
pub fn write_single_register(
    fc: u8,
    data: &[u8],
    data_bank: &mut DataBank,
    offset: usize,
    count: usize,
) -> (r: Vec<u8>)
    requires
        offset + count <= HOLDING_REGISTER_COUNT,
    ensures
        r@ == spec_write_single_register_at(fc, data@, offset as int, count as int),
        final(data_bank).holding_registers@ == spec_regs_after_single_at(
            data@,
            old(data_bank).holding_registers@,
            offset as int,
            count as int,
        ),
        final(data_bank).coils == old(data_bank).coils,
        final(data_bank).discrete_inputs == old(data_bank).discrete_inputs,
{
    if data.len() < 4 {
        return exception(fc, EX_ILLEGAL_DATA_VALUE);
    }
    let addr = data[0] as usize * 256 + data[1] as usize;
    let value = data[2] as u16 * 256 + data[3] as u16;
    if addr >= count || offset + addr < HR_U0_10_OUT_BASE || offset + addr >= HR_RELAY_READBACK {
        return exception(fc, EX_ILLEGAL_DATA_ADDRESS);
    }
    data_bank.holding_registers[offset + addr] = value;
    let mut result: Vec<u8> = Vec::with_capacity(5);
    result.push(fc);
    result.push(data[0]);
    result.push(data[1]);
    result.push(data[2]);
    result.push(data[3]);
    result
}

/// FC 0x10 Write Multiple Registers to the window of `count` registers
/// from `offset`.
///
/// Request `[start: u16, qty: u16, byte_count: u8, values: u16…]` to
/// analog-output registers; response `[fc, start: u16, qty: u16]`.
pub fn write_multiple_registers(
    fc: u8,
    data: &[u8],
    data_bank: &mut DataBank,
    offset: usize,
    count: usize,
) -> (r: Vec<u8>)
    requires
        offset + count <= HOLDING_REGISTER_COUNT,
    ensures
        r@ == spec_write_multiple_registers_at(fc, data@, offset as int, count as int),
        final(data_bank).holding_registers@ == spec_regs_after_multiple_at(
            data@,
            old(data_bank).holding_registers@,
            offset as int,
            count as int,
        ),
        final(data_bank).coils == old(data_bank).coils,
        final(data_bank).discrete_inputs == old(data_bank).discrete_inputs,
{
    if data.len() < 5 {
        return exception(fc, EX_ILLEGAL_DATA_VALUE);
    }
    let start = data[0] as usize * 256 + data[1] as usize;
    let quantity = data[2] as usize * 256 + data[3] as usize;
    let byte_count = data[4] as usize;
    if quantity == 0 || quantity > 123 || byte_count != quantity * 2 {
        return exception(fc, EX_ILLEGAL_DATA_VALUE);
    }
    if data.len() < 5 + byte_count {
        return exception(fc, EX_ILLEGAL_DATA_VALUE);
    }
    if start + quantity > count || offset + start < HR_U0_10_OUT_BASE || offset + start + quantity
        > HR_RELAY_READBACK {
        return exception(fc, EX_ILLEGAL_DATA_ADDRESS);
    }
    let ghost old_regs = data_bank.holding_registers@;
    let first = offset + start;
    let mut i: usize = 0;
    while i < quantity
        invariant
            old_regs == old(data_bank).holding_registers@,
            multiple_registers_ok_at(data@, offset as int, count as int),
            first == offset + be16(data@[0], data@[1]),
            quantity == be16(data@[2], data@[3]),
            i <= quantity,
            data_bank.holding_registers@.len() == HOLDING_REGISTER_COUNT,
            data_bank.coils == old(data_bank).coils,
            data_bank.discrete_inputs == old(data_bank).discrete_inputs,
            forall|j: int|
                0 <= j < HOLDING_REGISTER_COUNT ==> #[trigger] data_bank.holding_registers@[j]
                    == if first <= j < first + i {
                    be16(data@[5 + 2 * (j - first)], data@[6 + 2 * (j - first)]) as u16
                } else {
                    old_regs[j]
                },
        decreases quantity - i,
    {
        let value = data[5 + 2 * i] as u16 * 256 + data[6 + 2 * i] as u16;
        data_bank.holding_registers[first + i] = value;
        i += 1;
    }
    proof {
        assert(data_bank.holding_registers@ =~= spec_regs_after_multiple_at(
            data@,
            old_regs,
            offset as int,
            count as int,
        ));
    }
    let mut result: Vec<u8> = Vec::with_capacity(5);
    result.push(fc);
    result.push(data[0]);
    result.push(data[1]);
    result.push(data[2]);
    result.push(data[3]);
    result
}

/// Whether `r` is the response PDU to request `(fc, data)` on a data bank
/// with the given coils, discrete inputs and holding registers.
pub open spec fn spec_response_pdu(
    fc: u8,
    data: Seq<u8>,
    coils: Seq<bool>,
    inputs: Seq<bool>,
    regs: Seq<u16>,
    r: Seq<u8>,
) -> bool {
    if fc == FC_READ_COILS {
        spec_read_bits_response(fc, data, coils, r)
    } else if fc == FC_READ_DISCRETE_INPUTS {
        spec_read_bits_response(fc, data, inputs, r)
    } else if fc == FC_READ_HOLDING_REGISTERS {
        r == spec_read_registers(fc, data, regs)
    } else if fc == FC_WRITE_SINGLE_COIL {
        r == spec_write_single_coil(fc, data, coils)
    } else if fc == FC_WRITE_MULTIPLE_COILS {
        r == spec_write_multiple_coils(fc, data, coils)
    } else if fc == FC_WRITE_SINGLE_REGISTER {
        r == spec_write_single_register(fc, data)
    } else if fc == FC_WRITE_MULTIPLE_REGISTERS {
        r == spec_write_multiple_registers(fc, data)
    } else {
        r == spec_exception(fc, EX_ILLEGAL_FUNCTION)
    }
}

/// The coils after request `(fc, data)`; only FC 0x05 and FC 0x0F write.
pub open spec fn spec_coils_after(fc: u8, data: Seq<u8>, coils: Seq<bool>) -> Seq<bool> {
    if fc == FC_WRITE_SINGLE_COIL {
        spec_coils_after_single(data, coils)
    } else if fc == FC_WRITE_MULTIPLE_COILS {
        spec_coils_after_multiple(data, coils)
    } else {
        coils
    }
}

/// The holding registers after request `(fc, data)`; only FC 0x06 and
/// FC 0x10 write.
pub open spec fn spec_regs_after(fc: u8, data: Seq<u8>, regs: Seq<u16>) -> Seq<u16> {
    if fc == FC_WRITE_SINGLE_REGISTER {
        spec_regs_after_single(data, regs)
    } else if fc == FC_WRITE_MULTIPLE_REGISTERS {
        spec_regs_after_multiple(data, regs)
    } else {
        regs
    }
}

/// The register type a function code addresses (none for an unsupported
/// function code).
pub open spec fn spec_fc_reg_type(fc: u8) -> Option<RegType> {
    if fc == FC_READ_COILS || fc == FC_WRITE_SINGLE_COIL || fc == FC_WRITE_MULTIPLE_COILS {
        Some(RegType::Coils)
    } else if fc == FC_READ_DISCRETE_INPUTS {
        Some(RegType::DiscreteInputs)
    } else if fc == FC_READ_HOLDING_REGISTERS || fc == FC_WRITE_SINGLE_REGISTER || fc
        == FC_WRITE_MULTIPLE_REGISTERS {
        Some(RegType::HoldingRegisters)
    } else {
        None
    }
}

/// The register type a function code addresses.
pub fn fc_reg_type(fc: u8) -> (t: Option<RegType>)
    ensures
        t == spec_fc_reg_type(fc),
{
    if fc == FC_READ_COILS || fc == FC_WRITE_SINGLE_COIL || fc == FC_WRITE_MULTIPLE_COILS {
        Some(RegType::Coils)
    } else if fc == FC_READ_DISCRETE_INPUTS {
        Some(RegType::DiscreteInputs)
    } else if fc == FC_READ_HOLDING_REGISTERS || fc == FC_WRITE_SINGLE_REGISTER || fc
        == FC_WRITE_MULTIPLE_REGISTERS {
        Some(RegType::HoldingRegisters)
    } else {
        None
    }
}

/// Whether `r` answers request `(fc, data)` addressed to the window of `c`
/// entries from `o` of the register type of `fc`.
pub open spec fn spec_window_response(
    fc: u8,
    data: Seq<u8>,
    coils: Seq<bool>,
    inputs: Seq<bool>,
    regs: Seq<u16>,
    o: int,
    c: int,
    r: Seq<u8>,
) -> bool {
    if fc == FC_READ_COILS {
        spec_read_bits_response(fc, data, window(coils, o, c), r)
    } else if fc == FC_READ_DISCRETE_INPUTS {
        spec_read_bits_response(fc, data, window(inputs, o, c), r)
    } else if fc == FC_READ_HOLDING_REGISTERS {
        r == spec_read_registers(fc, data, window(regs, o, c))
    } else if fc == FC_WRITE_SINGLE_COIL {
        r == spec_write_single_coil(fc, data, window(coils, o, c))
    } else if fc == FC_WRITE_MULTIPLE_COILS {
        r == spec_write_multiple_coils(fc, data, window(coils, o, c))
    } else if fc == FC_WRITE_SINGLE_REGISTER {
        r == spec_write_single_register_at(fc, data, o, c)
    } else if fc == FC_WRITE_MULTIPLE_REGISTERS {
        r == spec_write_multiple_registers_at(fc, data, o, c)
    } else {
        r == spec_exception(fc, EX_ILLEGAL_FUNCTION)
    }
}

/// The coils after request `(fc, data)` addressed to the window of `c`
/// coils from `o`.
pub open spec fn spec_window_coils_after(fc: u8, data: Seq<u8>, coils: Seq<bool>, o: int, c: int) -> Seq<
    bool,
> {
    if fc == FC_WRITE_SINGLE_COIL {
        spec_coils_after_single_at(data, coils, o, c)
    } else if fc == FC_WRITE_MULTIPLE_COILS {
        spec_coils_after_multiple_at(data, coils, o, c)
    } else {
        coils
    }
}

/// The holding registers after request `(fc, data)` addressed to the
/// window of `c` registers from `o`.
pub open spec fn spec_window_regs_after(fc: u8, data: Seq<u8>, regs: Seq<u16>, o: int, c: int) -> Seq<
    u16,
> {
    if fc == FC_WRITE_SINGLE_REGISTER {
        spec_regs_after_single_at(data, regs, o, c)
    } else if fc == FC_WRITE_MULTIPLE_REGISTERS {
        spec_regs_after_multiple_at(data, regs, o, c)
    } else {
        regs
    }
}

/// The length of the data bank array of register type `t`.
pub open spec fn spec_bank_len(t: RegType) -> int {
    match t {
        RegType::Coils => COIL_COUNT as int,
        RegType::DiscreteInputs => DISCRETE_INPUT_COUNT as int,
        RegType::HoldingRegisters => HOLDING_REGISTER_COUNT as int,
    }
}

/// Dispatch request `(fc, data)` to its handler over the window of `count`
/// entries from `offset` of the register type of `fc`.
fn process_window(fc: u8, data: &[u8], data_bank: &mut DataBank, offset: usize, count: usize) -> (r:
    Vec<u8>)
    requires
        spec_fc_reg_type(fc) matches Some(t) ==> offset + count <= spec_bank_len(t),
    ensures
        spec_window_response(
            fc,
            data@,
            old(data_bank).coils@,
            old(data_bank).discrete_inputs@,
            old(data_bank).holding_registers@,
            offset as int,
            count as int,
            r@,
        ),
        final(data_bank).coils@ == spec_window_coils_after(
            fc,
            data@,
            old(data_bank).coils@,
            offset as int,
            count as int,
        ),
        final(data_bank).discrete_inputs == old(data_bank).discrete_inputs,
        final(data_bank).holding_registers@ == spec_window_regs_after(
            fc,
            data@,
            old(data_bank).holding_registers@,
            offset as int,
            count as int,
        ),
        r@.len() <= 252,
{
    if fc == FC_READ_COILS {
        read_bits(fc, data, data_bank, true, offset, count)
    } else if fc == FC_READ_DISCRETE_INPUTS {
        read_bits(fc, data, data_bank, false, offset, count)
    } else if fc == FC_READ_HOLDING_REGISTERS {
        read_registers(fc, data, data_bank, offset, count)
    } else if fc == FC_WRITE_SINGLE_COIL {
        write_single_coil(fc, data, data_bank, offset, count)
    } else if fc == FC_WRITE_MULTIPLE_COILS {
        write_multiple_coils(fc, data, data_bank, offset, count)
    } else if fc == FC_WRITE_SINGLE_REGISTER {
        write_single_register(fc, data, data_bank, offset, count)
    } else if fc == FC_WRITE_MULTIPLE_REGISTERS {
        write_multiple_registers(fc, data, data_bank, offset, count)
    } else {
        exception(fc, EX_ILLEGAL_FUNCTION)
    }
}

/// Dispatch one request PDU (function code and data) to its handler over
/// the whole data bank and return the response PDU; unsupported function
/// codes get exception 0x01.
pub fn process_request(fc: u8, data: &[u8], data_bank: &mut DataBank) -> (r: Vec<u8>)
    ensures
        spec_response_pdu(
            fc,
            data@,
            old(data_bank).coils@,
            old(data_bank).discrete_inputs@,
            old(data_bank).holding_registers@,
            r@,
        ),
        final(data_bank).coils@ == spec_coils_after(fc, data@, old(data_bank).coils@),
        final(data_bank).discrete_inputs == old(data_bank).discrete_inputs,
        final(data_bank).holding_registers@ == spec_regs_after(
            fc,
            data@,
            old(data_bank).holding_registers@,
        ),
        r@.len() <= 252,
{
    let ghost coils = data_bank.coils@;
    let ghost inputs = data_bank.discrete_inputs@;
    let ghost regs = data_bank.holding_registers@;
    proof {
        assert(window(coils, 0, COIL_COUNT as int) =~= coils);
        assert(window(inputs, 0, DISCRETE_INPUT_COUNT as int) =~= inputs);
        assert(window(regs, 0, HOLDING_REGISTER_COUNT as int) =~= regs);
        assert(spec_coils_after_single_at(data@, coils, 0, COIL_COUNT as int) =~= spec_coils_after_single(
            data@,
            coils,
        ));
        assert(spec_coils_after_multiple_at(data@, coils, 0, COIL_COUNT as int)
            =~= spec_coils_after_multiple(data@, coils));
    }
    let count: usize = if fc == FC_READ_DISCRETE_INPUTS {
        DISCRETE_INPUT_COUNT
    } else if fc == FC_READ_HOLDING_REGISTERS || fc == FC_WRITE_SINGLE_REGISTER || fc
        == FC_WRITE_MULTIPLE_REGISTERS {
        HOLDING_REGISTER_COUNT
    } else {
        COIL_COUNT
    };
    process_window(fc, data, data_bank, 0, count)
}

/// Exception 0x0B: the addressed unit (board) is not present.
pub const EX_GATEWAY_TARGET_FAILED: u8 = 0x0B;

/// Whether `r` answers request `(fc, data)` sent to `unit_id`: the unit ID
/// selects the slice of the data bank (see [`SlaveMap`]), and request
/// addresses count from the slice's start; an unknown unit gets exception
/// 0x0B.
pub open spec fn spec_routed_response(
    fc: u8,
    data: Seq<u8>,
    unit_id: u8,
    map: SlaveMap,
    coils: Seq<bool>,
    inputs: Seq<bool>,
    regs: Seq<u16>,
    r: Seq<u8>,
) -> bool {
    match spec_fc_reg_type(fc) {
        None => r == spec_exception(fc, EX_ILLEGAL_FUNCTION),
        Some(t) => match spec_resolve(map, unit_id, t) {
            None => r == spec_exception(fc, EX_GATEWAY_TARGET_FAILED),
            Some(sl) => spec_window_response(
                fc,
                data,
                coils,
                inputs,
                regs,
                sl.offset as int,
                sl.max_count as int,
                r,
            ),
        },
    }
}

/// The coils after request `(fc, data)` sent to `unit_id`.
pub open spec fn spec_routed_coils_after(
    fc: u8,
    data: Seq<u8>,
    unit_id: u8,
    map: SlaveMap,
    coils: Seq<bool>,
) -> Seq<bool> {
    match spec_fc_reg_type(fc) {
        Some(t) => match spec_resolve(map, unit_id, t) {
            Some(sl) => spec_window_coils_after(fc, data, coils, sl.offset as int, sl.max_count as int),
            None => coils,
        },
        None => coils,
    }
}

/// The holding registers after request `(fc, data)` sent to `unit_id`.
pub open spec fn spec_routed_regs_after(
    fc: u8,
    data: Seq<u8>,
    unit_id: u8,
    map: SlaveMap,
    regs: Seq<u16>,
) -> Seq<u16> {
    match spec_fc_reg_type(fc) {
        Some(t) => match spec_resolve(map, unit_id, t) {
            Some(sl) => spec_window_regs_after(fc, data, regs, sl.offset as int, sl.max_count as int),
            None => regs,
        },
        None => regs,
    }
}

/// Answer request `(fc, data)` sent to `unit_id`: the slave map selects
/// the slice of the data bank that the unit exposes, and the request is
/// handled on that slice; an unknown unit gets exception 0x0B, an
/// unsupported function code exception 0x01.
pub fn process_routed(
    fc: u8,
    data: &[u8],
    unit_id: u8,
    map: &SlaveMap,
    data_bank: &mut DataBank,
) -> (r: Vec<u8>)
    ensures
        spec_routed_response(
            fc,
            data@,
            unit_id,
            *map,
            old(data_bank).coils@,
            old(data_bank).discrete_inputs@,
            old(data_bank).holding_registers@,
            r@,
        ),
        final(data_bank).coils@ == spec_routed_coils_after(
            fc,
            data@,
            unit_id,
            *map,
            old(data_bank).coils@,
        ),
        final(data_bank).discrete_inputs == old(data_bank).discrete_inputs,
        final(data_bank).holding_registers@ == spec_routed_regs_after(
            fc,
            data@,
            unit_id,
            *map,
            old(data_bank).holding_registers@,
        ),
        r@.len() <= 252,
{
    match fc_reg_type(fc) {
        None => exception(fc, EX_ILLEGAL_FUNCTION),
        Some(t) => match map.resolve(unit_id, t) {
            None => exception(fc, EX_GATEWAY_TARGET_FAILED),
            Some(sl) => {
                proof {
                    lemma_resolved_slice_in_bank(*map, unit_id, t);
                }
                process_window(fc, data, data_bank, sl.offset, sl.max_count)
            },
        },
    }
}

// ── MBAP framing ─────────────────────────────────────────────────────

/// MBAP header: `[Transaction ID: 2] [Protocol ID: 2] [Length: 2] [Unit ID: 1]`.
#[derive(Debug, Clone, Copy, PartialEq, Eq, Structural)]
pub struct MbapHeader {
    pub transaction_id: u16,
    pub protocol_id: u16,
    /// Bytes that follow the length field: the unit ID plus the PDU.
    pub length: u16,
    pub unit_id: u8,
}

/// Decode the 7 header bytes of a Modbus TCP frame (big-endian fields).
pub fn parse_mbap_header(header: &[u8]) -> (h: MbapHeader)
    requires
        header@.len() == 7,
    ensures
        h.transaction_id == be16(header@[0], header@[1]),
        h.protocol_id == be16(header@[2], header@[3]),
        h.length == be16(header@[4], header@[5]),
        h.unit_id == header@[6],
{
    MbapHeader {
        transaction_id: header[0] as u16 * 256 + header[1] as u16,
        protocol_id: header[2] as u16 * 256 + header[3] as u16,
        length: header[4] as u16 * 256 + header[5] as u16,
        unit_id: header[6],
    }
}

/// A frame is processed only with protocol ID 0 and a length of 2 to 253
/// (the unit ID and at least a function code); any other header is
/// skipped without reading a PDU.
pub open spec fn spec_header_valid(h: MbapHeader) -> bool {
    h.protocol_id == 0 && 2 <= h.length <= 253
}

/// Whether the frame announced by `h` is to be processed.
pub fn mbap_header_valid(h: &MbapHeader) -> (b: bool)
    ensures
        b == spec_header_valid(*h),
{
    h.protocol_id == 0 && h.length >= 2 && h.length <= 253
}

/// Number of PDU bytes that follow a valid header (the length counts the
/// unit ID byte already read).
pub fn pdu_length(h: &MbapHeader) -> (n: usize)
    requires
        spec_header_valid(*h),
    ensures
        n == h.length - 1,
        n >= 1,
{
    (h.length - 1) as usize
}

/// The 7-byte MBAP header of a response carrying `pdu_len` PDU bytes.
pub open spec fn spec_response_header(h: MbapHeader, pdu_len: int) -> Seq<u8> {
    seq![
        (h.transaction_id / 256) as u8,
        (h.transaction_id % 256) as u8,
        0u8,
        0u8,
        ((pdu_len + 1) / 256) as u8,
        ((pdu_len + 1) % 256) as u8,
        h.unit_id,
    ]
}

/// Frame a response PDU: same transaction and unit ID, protocol 0, length
/// = PDU length + 1.
pub fn build_response_frame(h: &MbapHeader, response_pdu: &[u8]) -> (frame: Vec<u8>)
    requires
        response_pdu@.len() <= 252,
    ensures
        frame@ == spec_response_header(*h, response_pdu@.len() as int) + response_pdu@,
{
    let resp_length = (response_pdu.len() + 1) as u16;
    let mut frame: Vec<u8> = Vec::with_capacity(7 + response_pdu.len());
    frame.push((h.transaction_id / 256) as u8);
    frame.push((h.transaction_id % 256) as u8);
    frame.push(0);
    frame.push(0);
    frame.push((resp_length / 256) as u8);
    frame.push((resp_length % 256) as u8);
    frame.push(h.unit_id);
    let mut i: usize = 0;
    while i < response_pdu.len()
        invariant
            response_pdu@.len() <= 252,
            resp_length == response_pdu@.len() + 1,
            i <= response_pdu@.len(),
            frame@ == spec_response_header(*h, response_pdu@.len() as int) + response_pdu@.subrange(
                0,
                i as int,
            ),
        decreases response_pdu@.len() - i,
    {
        frame.push(response_pdu[i]);
        proof {
            assert(response_pdu@.subrange(0, i + 1) =~= response_pdu@.subrange(0, i as int).push(
                response_pdu@[i as int],
            ));
        }
        i += 1;
    }
    proof {
        assert(response_pdu@.subrange(0, response_pdu@.len() as int) =~= response_pdu@);
    }
    frame
}

/// Answer one frame: process the PDU (function code, then data) for the
/// frame's unit ID against the data bank, as the slave map routes it, and
/// frame the response for the same transaction and unit.
pub fn handle_frame(h: &MbapHeader, pdu: &[u8], map: &SlaveMap, data_bank: &mut DataBank) -> (frame:
    Vec<u8>)
    requires
        pdu@.len() >= 1,
    ensures
        exists|r: Seq<u8>|
            {
                &&& spec_routed_response(
                    pdu@[0],
                    pdu@.subrange(1, pdu@.len() as int),
                    h.unit_id,
                    *map,
                    old(data_bank).coils@,
                    old(data_bank).discrete_inputs@,
                    old(data_bank).holding_registers@,
                    r,
                )
                &&& r.len() <= 252
                &&& frame@ == spec_response_header(*h, r.len() as int) + r
            },
        final(data_bank).coils@ == spec_routed_coils_after(
            pdu@[0],
            pdu@.subrange(1, pdu@.len() as int),
            h.unit_id,
            *map,
            old(data_bank).coils@,
        ),
        final(data_bank).discrete_inputs == old(data_bank).discrete_inputs,
        final(data_bank).holding_registers@ == spec_routed_regs_after(
            pdu@[0],
            pdu@.subrange(1, pdu@.len() as int),
            h.unit_id,
            *map,
            old(data_bank).holding_registers@,
        ),
{
    let function_code = pdu[0];
    let pdu_data = vstd::slice::slice_subrange(pdu, 1, pdu.len());
    let response_pdu = process_routed(function_code, pdu_data, h.unit_id, map, data_bank);
    build_response_frame(h, &response_pdu)
}

// ── Laws ─────────────────────────────────────────────────────────────

proof fn lemma_only_bit0(v: u8)
    requires
        (v >> 0u8) & 1u8 == 1u8,
        (v >> 1u8) & 1u8 != 1u8,
        (v >> 2u8) & 1u8 != 1u8,
        (v >> 3u8) & 1u8 != 1u8,
        (v >> 4u8) & 1u8 != 1u8,
        (v >> 5u8) & 1u8 != 1u8,
        (v >> 6u8) & 1u8 != 1u8,
        (v >> 7u8) & 1u8 != 1u8,
    ensures
        v == 1,
{
    assert(v == 1) by (bit_vector)
        requires
            (v >> 0u8) & 1u8 == 1u8,
            (v >> 1u8) & 1u8 != 1u8,
            (v >> 2u8) & 1u8 != 1u8,
            (v >> 3u8) & 1u8 != 1u8,
            (v >> 4u8) & 1u8 != 1u8,
            (v >> 5u8) & 1u8 != 1u8,
            (v >> 6u8) & 1u8 != 1u8,
            (v >> 7u8) & 1u8 != 1u8,
    ;
}

/// A coil written ON with FC 0x05 reads back ON with FC 0x01: after a
/// successful write of `0xFF00` to `addr`, reading one coil at `addr`
/// answers `[0x01, 1, 0x01]`.
pub proof fn lemma_single_coil_write_then_read(
    addr_hi: u8,
    addr_lo: u8,
    coils: Seq<bool>,
    r: Seq<u8>,
)
    requires
        coils.len() == COIL_COUNT,
        be16(addr_hi, addr_lo) < COIL_COUNT,
        spec_read_bits_response(
            FC_READ_COILS,
            seq![addr_hi, addr_lo, 0u8, 1u8],
            spec_coils_after_single(seq![addr_hi, addr_lo, 0xFFu8, 0x00u8], coils),
            r,
        ),
    ensures
        r == seq![FC_READ_COILS, 1u8, 1u8],
{
    let after = spec_coils_after_single(seq![addr_hi, addr_lo, 0xFFu8, 0x00u8], coils);
    let a = be16(addr_hi, addr_lo);
    assert(after[a]);
    assert(byte_bit(r[2int + 0int], 0));
    assert(!byte_bit(r[2int + 0int], 1));
    assert(!byte_bit(r[2int + 0int], 2));
    assert(!byte_bit(r[2int + 0int], 3));
    assert(!byte_bit(r[2int + 0int], 4));
    assert(!byte_bit(r[2int + 0int], 5));
    assert(!byte_bit(r[2int + 0int], 6));
    assert(!byte_bit(r[2int + 0int], 7));
    lemma_only_bit0(r[2]);
    assert(r =~= seq![FC_READ_COILS, 1u8, 1u8]);
}

/// What FC 0x0F writes, FC 0x01 reads back: after a successful write of
/// `q` coils from `start`, reading the same range answers the request's
/// byte count followed by bytes whose first `q` bits are the written bits
/// and whose remaining bits are clear.
pub proof fn lemma_multiple_coils_write_then_read(data: Seq<u8>, coils: Seq<bool>, r: Seq<u8>)
    requires
        coils.len() == COIL_COUNT,
        multiple_coils_ok(data, COIL_COUNT as int),
        spec_read_bits_response(
            FC_READ_COILS,
            data.subrange(0, 4),
            spec_coils_after_multiple(data, coils),
            r,
        ),
    ensures
        r.len() == 2 + data[4],
        r[0] == FC_READ_COILS,
        r[1] == data[4],
        forall|k: int, b: int|
            0 <= k < data[4] && 0 <= b < 8 ==> (#[trigger] byte_bit(r[2 + k], b)) == (8 * k + b
                < be16(data[2], data[3]) && byte_bit(data[5 + k], b)),
{
    let q = be16(data[2], data[3]);
    let start = be16(data[0], data[1]);
    let after = spec_coils_after_multiple(data, coils);
    let req = data.subrange(0, 4);
    assert(req[0] == data[0] && req[1] == data[1] && req[2] == data[2] && req[3] == data[3]);
    assert forall|k: int, b: int|
        0 <= k < data[4] && 0 <= b < 8 implies (#[trigger] byte_bit(r[2 + k], b)) == (8 * k + b
            < q && byte_bit(data[5 + k], b)) by {
        if 8 * k + b < q {
            let j = start + 8 * k + b;
            assert(after[j] == byte_bit(data[5 + (j - start) / 8], (j - start) % 8));
            assert((j - start) / 8 == k);
            assert((j - start) % 8 == b);
        }
    }
}


/// What FC 0x06 writes, FC 0x03 reads back: after a successful write of
/// `value` to an analog-output register, reading that one register
/// answers `[0x03, 2, value_hi, value_lo]`.
pub proof fn lemma_single_register_write_then_read(
    addr_hi: u8,
    addr_lo: u8,
    value_hi: u8,
    value_lo: u8,
    regs: Seq<u16>,
)
    requires
        regs.len() == HOLDING_REGISTER_COUNT,
        spec_writable_register(be16(addr_hi, addr_lo)),
    ensures
        spec_read_registers(
            FC_READ_HOLDING_REGISTERS,
            seq![addr_hi, addr_lo, 0u8, 1u8],
            spec_regs_after_single(seq![addr_hi, addr_lo, value_hi, value_lo], regs),
        ) == seq![FC_READ_HOLDING_REGISTERS, 2u8, value_hi, value_lo],
{
    let after = spec_regs_after_single(seq![addr_hi, addr_lo, value_hi, value_lo], regs);
    let a = be16(addr_hi, addr_lo);
    let v = be16(value_hi, value_lo);
    assert(after[a] == v as u16);
    assert((v as u16) / 256 == value_hi && (v as u16) % 256 == value_lo);
    assert(register_bytes(after, a, 1) =~= seq![value_hi, value_lo]);
    assert(spec_read_registers(FC_READ_HOLDING_REGISTERS, seq![addr_hi, addr_lo, 0u8, 1u8], after)
        =~= seq![FC_READ_HOLDING_REGISTERS, 2u8, value_hi, value_lo]);
}

/// A write of holding registers changes no coil and a write of coils
/// changes no holding register.
pub proof fn lemma_writes_are_separate(fc: u8, data: Seq<u8>, coils: Seq<bool>, regs: Seq<u16>)
    ensures
        (fc == FC_WRITE_SINGLE_REGISTER || fc == FC_WRITE_MULTIPLE_REGISTERS) ==> spec_coils_after(
            fc,
            data,
            coils,
        ) == coils,
        (fc == FC_WRITE_SINGLE_COIL || fc == FC_WRITE_MULTIPLE_COILS) ==> spec_regs_after(
            fc,
            data,
            regs,
        ) == regs,
{
}

/// In single-slave mode the unit ID does not matter: every request is
/// answered, and changes the bank, as on the whole flat data bank.
pub proof fn lemma_single_slave_is_flat(
    fc: u8,
    data: Seq<u8>,
    unit_id: u8,
    map: SlaveMap,
    coils: Seq<bool>,
    inputs: Seq<bool>,
    regs: Seq<u16>,
    r: Seq<u8>,
)
    requires
        map.mode == SlaveMode::Single,
        coils.len() == COIL_COUNT,
        inputs.len() == DISCRETE_INPUT_COUNT,
        regs.len() == HOLDING_REGISTER_COUNT,
    ensures
        spec_routed_response(fc, data, unit_id, map, coils, inputs, regs, r) == spec_response_pdu(
            fc,
            data,
            coils,
            inputs,
            regs,
            r,
        ),
        spec_routed_coils_after(fc, data, unit_id, map, coils) == spec_coils_after(fc, data, coils),
        spec_routed_regs_after(fc, data, unit_id, map, regs) == spec_regs_after(fc, data, regs),
{
    assert(window(coils, 0, COIL_COUNT as int) =~= coils);
    assert(window(inputs, 0, DISCRETE_INPUT_COUNT as int) =~= inputs);
    assert(window(regs, 0, HOLDING_REGISTER_COUNT as int) =~= regs);
    assert(spec_coils_after_single_at(data, coils, 0, COIL_COUNT as int) =~= spec_coils_after_single(
        data,
        coils,
    ));
    assert(spec_coils_after_multiple_at(data, coils, 0, COIL_COUNT as int)
        =~= spec_coils_after_multiple(data, coils));
}

/// In multi-slave mode the Industrial board's open-drain coil `a` (0–3)
/// is data bank coil `16 + a`: switching it on with FC 0x05 sent to the
/// Industrial unit sets that coil and no other.
pub proof fn lemma_ind_od_coil_routing(map: SlaveMap, a: u8, coils: Seq<bool>)
    requires
        map.mode == SlaveMode::Multi,
        map.ind_slave_id != map.relay_slave_id,
        a < 4,
        coils.len() == COIL_COUNT,
    ensures
        spec_routed_coils_after(
            FC_WRITE_SINGLE_COIL,
            seq![0u8, a, 0xFFu8, 0x00u8],
            map.ind_slave_id,
            map,
            coils,
        ) == coils.update(16 + a, true),
        spec_routed_response(
            FC_WRITE_SINGLE_COIL,
            seq![0u8, a, 0xFFu8, 0x00u8],
            map.ind_slave_id,
            map,
            coils,
            Seq::empty(),
            Seq::empty(),
            seq![FC_WRITE_SINGLE_COIL, 0u8, a, 0xFFu8, 0x00u8],
        ),
{
    let w = window(coils, 16, 4);
    let data = seq![0u8, a, 0xFFu8, 0x00u8];
    assert(spec_coils_after_single(data, w) == w.update(a as int, true));
    assert(splice(coils, 16, w.update(a as int, true)) =~= coils.update(16 + a, true));
}


/// Which frames are processed: a header is accepted exactly when its
/// protocol ID is 0 and its length (unit ID plus PDU) lies in 2..=253, so
/// every request with a PDU of 1 to 252 bytes is answered (a Write
/// Multiple Coils of 16 coils has length 9), and a frame with an empty
/// PDU, a PDU over 252 bytes or another protocol is skipped.
pub proof fn lemma_header_acceptance(h: MbapHeader)
    ensures
        spec_header_valid(h) <==> (h.protocol_id == 0 && 2 <= h.length && h.length <= 253),
        2 <= h.length && h.length <= 253 && h.protocol_id == 0 ==> spec_header_valid(h),
        h.protocol_id == 0 && h.length == 9 ==> spec_header_valid(h),
        h.protocol_id != 0 || h.length < 2 || h.length > 253 ==> !spec_header_valid(h),
{
}

} // verus!
