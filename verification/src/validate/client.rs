//! The protocol side of the validation runner's Modbus TCP client:
//! request framing, the transaction counter, and the decoding of
//! responses.
//!
//! | FC   | Name                    | Direction |
//! |------|-------------------------|-----------|
//! | 0x01 | Read Coils              | Read      |
//! | 0x02 | Read Discrete Inputs    | Read      |
//! | 0x03 | Read Holding Registers  | Read      |
//! | 0x05 | Write Single Coil       | Write     |
//! | 0x06 | Write Single Register   | Write     |
//!
//! The connection itself (a blocking TCP stream with 5 s timeouts) is the
//! application's part, reached through [`ModbusStream`].
use vstd::prelude::*;
use vstd::string::StringExecFns;

use crate::modbus::be16;
use crate::text::{decimal, push_hex2, spec_decimal, spec_hex2};

verus! {

/// The MBAP protocol identifier: 0 for Modbus.
pub const PROTOCOL_ID: u16 = 0x0000;

/// High byte of a 16-bit value.
pub open spec fn hi(v: u16) -> u8 {
    (v / 256) as u8
}

/// Low byte of a 16-bit value.
pub open spec fn lo(v: u16) -> u8 {
    (v % 256) as u8
}

/// A request frame: transaction ID, protocol ID 0, the length of what
/// follows it (unit ID, function code, data; kept to 16 bits), unit ID,
/// function code, data.
pub open spec fn spec_request_frame(tid: u16, unit_id: u8, fc: u8, data: Seq<u8>) -> Seq<u8> {
    let len = ((data.len() + 2) % 65536) as u16;
    seq![hi(tid), lo(tid), 0u8, 0u8, hi(len), lo(len), unit_id, fc] + data
}

/// Errors the client finds in a response.
#[derive(Debug, Clone, Copy, PartialEq, Eq, Structural)]
pub enum ClientError {
    /// The MBAP length field is zero.
    ZeroLength,
    /// An exception response: the function code with its high bit set, and
    /// the exception code (0 when the response carries none).
    Exception { fc: u8, code: u8 },
    /// An FC 0x03 response of fewer than 2 bytes.
    RegistersTooShort { len: usize },
    /// An FC 0x01 / 0x02 response of fewer than 2 bytes.
    BitsTooShort { fc: u8 },
    /// A response shorter than its byte count says.
    Truncated { fc: u8 },
    /// A response whose byte count fits but which holds fewer values than
    /// were asked for.
    Incomplete { fc: u8 },
}

/// The text of an error.
pub open spec fn spec_client_error_message(e: ClientError) -> Seq<char> {
    match e {
        ClientError::ZeroLength => "MBAP length is zero"@,
        ClientError::Exception { fc, code } => "Modbus exception FC=0x"@ + spec_hex2(fc)
            + " code=0x"@ + spec_hex2(code),
        ClientError::RegistersTooShort { len } => "FC03 response too short ("@ + spec_decimal(
            len as nat,
        ) + " bytes)"@,
        ClientError::BitsTooShort { fc } => "FC"@ + spec_hex2(fc) + " response too short"@,
        ClientError::Truncated { fc } => "FC"@ + spec_hex2(fc) + " response truncated"@,
        ClientError::Incomplete { fc } => "FC"@ + spec_hex2(fc)
            + " response holds fewer values than requested"@,
    }
}

impl ClientError {
    /// The error's text, e.g. `Modbus exception FC=0x83 code=0x02`.
    pub fn message(&self) -> (m: String)
        ensures
            m@ == spec_client_error_message(*self),
    {
        match *self {
            ClientError::ZeroLength => String::from_str("MBAP length is zero"),
            ClientError::Exception { fc, code } => {
                let mut m = String::from_str("Modbus exception FC=0x");
                push_hex2(&mut m, fc);
                m.append(" code=0x");
                push_hex2(&mut m, code);
                m
            },
            ClientError::RegistersTooShort { len } => {
                let mut m = String::from_str("FC03 response too short (");
                let n = decimal(len as u64);
                m.append(n.as_str());
                m.append(" bytes)");
                m
            },
            ClientError::BitsTooShort { fc } => {
                let mut m = String::from_str("FC");
                push_hex2(&mut m, fc);
                m.append(" response too short");
                m
            },
            ClientError::Truncated { fc } => {
                let mut m = String::from_str("FC");
                push_hex2(&mut m, fc);
                m.append(" response truncated");
                m
            },
            ClientError::Incomplete { fc } => {
                let mut m = String::from_str("FC");
                push_hex2(&mut m, fc);
                m.append(" response holds fewer values than requested");
                m
            },
        }
    }
}

/// The data of a request made of two big-endian 16-bit fields (address
/// and count, or address and value).
pub open spec fn spec_request_data(a: u16, b: u16) -> Seq<u8> {
    seq![hi(a), lo(a), hi(b), lo(b)]
}

/// The request data of a two-field request.
pub fn request_data(a: u16, b: u16) -> (d: Vec<u8>)
    ensures
        d@ == spec_request_data(a, b),
{
    let mut d: Vec<u8> = Vec::with_capacity(4);
    d.push((a / 256) as u8);
    d.push((a % 256) as u8);
    d.push((b / 256) as u8);
    d.push((b % 256) as u8);
    d
}

/// A byte stream to a Modbus TCP server (in the application, a TCP
/// connection with 5 s timeouts).
pub trait ModbusStream {
    /// Send all of `data`; on failure, the stream's error text.
    fn write_all(&mut self, data: &[u8]) -> Result<(), String>;

    /// Fill `buf` exactly; on failure, the stream's error text.
    fn read_exact(&mut self, buf: &mut [u8]) -> Result<(), String>;
}

/// Failure of a Modbus transaction.
#[derive(Debug, Clone, PartialEq, Eq)]
pub enum TransactError {
    /// The stream failed: the step, a colon, and the stream's error text.
    Stream(String),
    /// The response was refused.
    Client(ClientError),
}

/// The text of a transaction error.
pub open spec fn spec_transact_error_message(e: TransactError) -> Seq<char> {
    match e {
        TransactError::Stream(m) => m@,
        TransactError::Client(c) => spec_client_error_message(c),
    }
}

impl TransactError {
    /// The error's text, e.g. `Modbus TCP read header: timed out`.
    pub fn message(&self) -> (m: String)
        ensures
            m@ == spec_transact_error_message(*self),
    {
        match self {
            TransactError::Stream(m) => m.clone(),
            TransactError::Client(c) => c.message(),
        }
    }
}

fn stream_error(step: &str, e: String) -> (r: TransactError)
    ensures
        r matches TransactError::Stream(m) && m@ == step@ + ": "@ + e@,
{
    let mut m = String::from_str(step);
    m.append(": ");
    m.append(e.as_str());
    TransactError::Stream(m)
}

/// `r1` is `r0` followed by a response's 7-byte `header` and its `pdu`.
pub open spec fn spec_received_with(r0: Seq<Seq<u8>>, r1: Seq<Seq<u8>>, header: Seq<u8>, pdu: Seq<u8>) -> bool {
    header.len() == 7 && r1 == r0.push(header).push(pdu)
}

/// `r1` is `r0` followed by the header and PDU of one response whose PDU
/// is `pdu`.
pub open spec fn spec_response_received(r0: Seq<Seq<u8>>, r1: Seq<Seq<u8>>, pdu: Seq<u8>) -> bool {
    exists|header: Seq<u8>| #[trigger] spec_received_with(r0, r1, header, pdu)
}

/// Blocking Modbus TCP client over the stream `S`: the last transaction
/// ID used and the unit ID of the next requests.
pub struct ModbusClient<S: ModbusStream> {
    stream: S,
    pub transaction_id: u16,
    pub unit_id: u8,
    sent: Ghost<Seq<Seq<u8>>>,
    received: Ghost<Seq<Seq<u8>>>,
}

/// Abstract state of a [`ModbusClient`].
pub struct ClientView {
    pub transaction_id: u16,
    pub unit_id: u8,
}

impl<S: ModbusStream> View for ModbusClient<S> {
    type V = ClientView;

    closed spec fn view(&self) -> ClientView {
        ClientView { transaction_id: self.transaction_id, unit_id: self.unit_id }
    }
}

/// Whether an FC 0x01 / 0x02 response holds the `count` bits asked for,
/// or is refused before they are read.
pub open spec fn spec_bits_complete(resp: Seq<u8>, count: int) -> bool {
    resp.len() < 2 || resp.len() < 2 + resp[1] || count == 0 || resp.len() >= 2 + (count - 1) / 8
        + 1
}

/// Whether an FC 0x03 response holds the `count` registers asked for, or
/// is refused before they are read.
pub open spec fn spec_registers_complete(resp: Seq<u8>, count: int) -> bool {
    resp.len() < 2 || resp.len() < 2 + resp[1] || resp.len() >= 2 + 2 * count
}

impl<S: ModbusStream> ModbusClient<S> {
    /// The request frames handed to the stream so far, oldest first.
    pub closed spec fn sent_frames(&self) -> Seq<Seq<u8>> {
        self.sent@
    }

    /// The byte runs read from the stream so far (each response's header,
    /// then its PDU), oldest first.
    pub closed spec fn received_chunks(&self) -> Seq<Seq<u8>> {
        self.received@
    }

    /// A client on `stream` that has sent nothing yet, addressing `unit_id`.
    pub fn new(stream: S, unit_id: u8) -> (c: Self)
        ensures
            c@.transaction_id == 0,
            c@.unit_id == unit_id,
            c.sent_frames() == Seq::<Seq<u8>>::empty(),
            c.received_chunks() == Seq::<Seq<u8>>::empty(),
    {
        ModbusClient {
            stream,
            transaction_id: 0,
            unit_id,
            sent: Ghost(Seq::empty()),
            received: Ghost(Seq::empty()),
        }
    }

    /// Change the unit ID of the next requests.
    pub fn set_unit_id(&mut self, uid: u8)
        ensures
            final(self)@.unit_id == uid,
            final(self)@.transaction_id == old(self)@.transaction_id,
            final(self).sent_frames() == old(self).sent_frames(),
            final(self).received_chunks() == old(self).received_chunks(),
    {
        self.unit_id = uid;
    }

    /// The frame of the next request, under the next transaction ID (the
    /// counter wraps from 0xFFFF to 0).
    pub fn next_frame(&mut self, fc: u8, data: &[u8]) -> (frame: Vec<u8>)
        ensures
            final(self)@.transaction_id == (old(self)@.transaction_id + 1) % 65536,
            final(self)@.unit_id == old(self)@.unit_id,
            frame@ == spec_request_frame(final(self)@.transaction_id, old(self)@.unit_id, fc, data@),
            final(self).sent_frames() == old(self).sent_frames(),
            final(self).received_chunks() == old(self).received_chunks(),
    {
        self.transaction_id = self.transaction_id.wrapping_add(1);
        let tid = self.transaction_id;
        let l16 = (data.len() % 65536) as u16;
        let len = l16.wrapping_add(2);
        assert(len == ((data@.len() + 2) % 65536) as u16) by {
            let l = data@.len() as int;
            assert((l % 65536 + 2) % 65536 == (l + 2) % 65536) by (nonlinear_arith);
        }
        let mut frame: Vec<u8> = Vec::new();
        frame.push((tid / 256) as u8);
        frame.push((tid % 256) as u8);
        frame.push((PROTOCOL_ID / 256) as u8);
        frame.push((PROTOCOL_ID % 256) as u8);
        frame.push((len / 256) as u8);
        frame.push((len % 256) as u8);
        frame.push(self.unit_id);
        frame.push(fc);
        let ghost head = frame@;
        let mut i: usize = 0;
        while i < data.len()
            invariant
                i <= data@.len(),
                frame@ == head + data@.subrange(0, i as int),
            decreases data@.len() - i,
        {
            frame.push(data[i]);
            i += 1;
            proof {
                assert(frame@ =~= head + data@.subrange(0, i as int));
            }
        }
        proof {
            assert(data@.subrange(0, data@.len() as int) =~= data@);
            assert(head =~= seq![hi(tid), lo(tid), 0u8, 0u8, hi(len), lo(len), self.unit_id, fc]);
        }
        frame
    }

    /// Send a request and receive its response PDU: the frame goes out
    /// under the next transaction ID, the 7-byte response header gives the
    /// PDU's length, and an exception response is an error.
    fn transact(&mut self, fc: u8, data: &[u8]) -> (r: Result<Vec<u8>, TransactError>)
        ensures
            final(self)@.transaction_id == (old(self)@.transaction_id + 1) % 65536,
            final(self)@.unit_id == old(self)@.unit_id,
            r matches Ok(pdu) ==> !(pdu@.len() > 0 && pdu@[0] == (fc | 0x80)),
            final(self).sent_frames() == old(self).sent_frames().push(
                spec_request_frame(final(self)@.transaction_id, old(self)@.unit_id, fc, data@),
            ),
            r matches Ok(pdu) ==> spec_response_received(
                old(self).received_chunks(),
                final(self).received_chunks(),
                pdu@,
            ),
    {
        let ghost r0 = self.received@;
        let frame = self.next_frame(fc, data);
        proof {
            self.sent@ = self.sent@.push(frame@);
        }
        match self.stream.write_all(frame.as_slice()) {
            Ok(()) => {},
            Err(e) => {
                return Err(stream_error("Modbus TCP write", e));
            },
        }
        let mut header = [0u8; 7];
        match self.stream.read_exact(&mut header) {
            Ok(()) => {},
            Err(e) => {
                return Err(stream_error("Modbus TCP read header", e));
            },
        }
        proof {
            self.received@ = self.received@.push(header@);
        }
        let n = match response_pdu_len(&header) {
            Ok(n) => n,
            Err(c) => {
                return Err(TransactError::Client(c));
            },
        };
        let mut pdu: Vec<u8> = Vec::new();
        let mut i: usize = 0;
        while i < n
            invariant
                i <= n,
            decreases n - i,
        {
            pdu.push(0u8);
            i += 1;
        }
        match self.stream.read_exact(pdu.as_mut_slice()) {
            Ok(()) => {},
            Err(e) => {
                return Err(stream_error("Modbus TCP read PDU", e));
            },
        }
        proof {
            vstd::array::array_len_matches_n(&header);
            self.received@ = self.received@.push(pdu@);
            assert(spec_received_with(r0, self.received@, header@, pdu@));
        }
        match check_exception(fc, pdu.as_slice()) {
            Ok(()) => Ok(pdu),
            Err(c) => Err(TransactError::Client(c)),
        }
    }

    /// Read `count` bit-packed values from `addr` on (FC 0x01 / 0x02).
    fn read_bits(&mut self, fc: u8, addr: u16, count: u16) -> (r: Result<Vec<bool>, TransactError>)
        ensures
            final(self)@.transaction_id == (old(self)@.transaction_id + 1) % 65536,
            final(self)@.unit_id == old(self)@.unit_id,
            r matches Ok(bits) ==> bits@.len() == count,
            r matches Ok(bits) ==> bits@ == spec_bits(final(self).received_chunks().last(), count as int)
                && spec_response_received(
                old(self).received_chunks(),
                final(self).received_chunks(),
                final(self).received_chunks().last(),
            ),
            final(self).sent_frames() == old(self).sent_frames().push(
                spec_request_frame(final(self)@.transaction_id, old(self)@.unit_id, fc, spec_request_data(addr, count)),
            ),
    {
        let data = request_data(addr, count);
        let resp = match self.transact(fc, data.as_slice()) {
            Ok(p) => p,
            Err(e) => {
                return Err(e);
            },
        };
        proof {
            let h = choose|h: Seq<u8>|
                #[trigger] spec_received_with(
                    old(self).received_chunks(),
                    self.received_chunks(),
                    h,
                    resp@,
                );
            assert(self.received_chunks().last() == resp@);
        }
        let complete = resp.len() < 2 || resp.len() < 2 + resp[1] as usize || count == 0
            || resp.len() >= 2 + (count as usize - 1) / 8 + 1;
        if !complete {
            return Err(TransactError::Client(ClientError::Incomplete { fc }));
        }
        match decode_bits(fc, resp.as_slice(), count) {
            Ok(bits) => Ok(bits),
            Err(c) => Err(TransactError::Client(c)),
        }
    }

    /// FC 0x01: `count` coils from `addr` on.
    pub fn read_coils(&mut self, addr: u16, count: u16) -> (r: Result<Vec<bool>, TransactError>)
        ensures
            final(self)@.transaction_id == (old(self)@.transaction_id + 1) % 65536,
            final(self)@.unit_id == old(self)@.unit_id,
            r matches Ok(bits) ==> bits@.len() == count,
            r matches Ok(bits) ==> bits@ == spec_bits(final(self).received_chunks().last(), count as int)
                && spec_response_received(
                old(self).received_chunks(),
                final(self).received_chunks(),
                final(self).received_chunks().last(),
            ),
            final(self).sent_frames() == old(self).sent_frames().push(
                spec_request_frame(
                    final(self)@.transaction_id,
                    old(self)@.unit_id,
                    0x01,
                    spec_request_data(addr, count),
                ),
            ),
    {
        self.read_bits(0x01, addr, count)
    }

    /// FC 0x02: `count` discrete inputs from `addr` on.
    pub fn read_discrete_inputs(&mut self, addr: u16, count: u16) -> (r: Result<
        Vec<bool>,
        TransactError,
    >)
        ensures
            final(self)@.transaction_id == (old(self)@.transaction_id + 1) % 65536,
            final(self)@.unit_id == old(self)@.unit_id,
            r matches Ok(bits) ==> bits@.len() == count,
            r matches Ok(bits) ==> bits@ == spec_bits(final(self).received_chunks().last(), count as int)
                && spec_response_received(
                old(self).received_chunks(),
                final(self).received_chunks(),
                final(self).received_chunks().last(),
            ),
            final(self).sent_frames() == old(self).sent_frames().push(
                spec_request_frame(
                    final(self)@.transaction_id,
                    old(self)@.unit_id,
                    0x02,
                    spec_request_data(addr, count),
                ),
            ),
    {
        self.read_bits(0x02, addr, count)
    }

    /// FC 0x03: `count` holding registers from `addr` on.
    pub fn read_holding_registers(&mut self, addr: u16, count: u16) -> (r: Result<
        Vec<u16>,
        TransactError,
    >)
        ensures
            final(self)@.transaction_id == (old(self)@.transaction_id + 1) % 65536,
            final(self)@.unit_id == old(self)@.unit_id,
            r matches Ok(regs) ==> regs@.len() == count,
            r matches Ok(regs) ==> regs@ == spec_registers(final(self).received_chunks().last(), count as int)
                && spec_response_received(
                old(self).received_chunks(),
                final(self).received_chunks(),
                final(self).received_chunks().last(),
            ),
            final(self).sent_frames() == old(self).sent_frames().push(
                spec_request_frame(
                    final(self)@.transaction_id,
                    old(self)@.unit_id,
                    0x03,
                    spec_request_data(addr, count),
                ),
            ),
    {
        let data = request_data(addr, count);
        let resp = match self.transact(0x03, data.as_slice()) {
            Ok(p) => p,
            Err(e) => {
                return Err(e);
            },
        };
        proof {
            let h = choose|h: Seq<u8>|
                #[trigger] spec_received_with(
                    old(self).received_chunks(),
                    self.received_chunks(),
                    h,
                    resp@,
                );
            assert(self.received_chunks().last() == resp@);
        }
        let complete = resp.len() < 2 || resp.len() < 2 + resp[1] as usize || resp.len() >= 2 + 2
            * count as usize;
        if !complete {
            return Err(TransactError::Client(ClientError::Incomplete { fc: 0x03 }));
        }
        match decode_registers(resp.as_slice(), count) {
            Ok(regs) => Ok(regs),
            Err(c) => Err(TransactError::Client(c)),
        }
    }

    /// FC 0x05: switch the coil at `addr` on (0xFF00) or off (0x0000).
    pub fn write_single_coil(&mut self, addr: u16, value: bool) -> (r: Result<(), TransactError>)
        ensures
            final(self)@.transaction_id == (old(self)@.transaction_id + 1) % 65536,
            final(self)@.unit_id == old(self)@.unit_id,
            final(self).sent_frames() == old(self).sent_frames().push(
                spec_request_frame(
                    final(self)@.transaction_id,
                    old(self)@.unit_id,
                    0x05,
                    spec_request_data(addr, if value { 0xFF00u16 } else { 0x0000u16 }),
                ),
            ),
    {
        let val: u16 = if value {
            0xFF00
        } else {
            0x0000
        };
        let data = request_data(addr, val);
        match self.transact(0x05, data.as_slice()) {
            Ok(_) => Ok(()),
            Err(e) => Err(e),
        }
    }

    /// FC 0x06: write `value` to the holding register at `addr`.
    pub fn write_single_register(&mut self, addr: u16, value: u16) -> (r: Result<
        (),
        TransactError,
    >)
        ensures
            final(self)@.transaction_id == (old(self)@.transaction_id + 1) % 65536,
            final(self)@.unit_id == old(self)@.unit_id,
            final(self).sent_frames() == old(self).sent_frames().push(
                spec_request_frame(
                    final(self)@.transaction_id,
                    old(self)@.unit_id,
                    0x06,
                    spec_request_data(addr, value),
                ),
            ),
    {
        let data = request_data(addr, value);
        match self.transact(0x06, data.as_slice()) {
            Ok(_) => Ok(()),
            Err(e) => Err(e),
        }
    }
}

/// How many PDU bytes follow a response header: its length field less
/// the unit ID byte; a zero length field is an error.
pub fn response_pdu_len(header: &[u8]) -> (r: Result<usize, ClientError>)
    requires
        header@.len() == 7,
    ensures
        be16(header@[4], header@[5]) == 0 ==> r == Err::<usize, ClientError>(
            ClientError::ZeroLength,
        ),
        be16(header@[4], header@[5]) != 0 ==> r == Ok::<usize, ClientError>(
            (be16(header@[4], header@[5]) - 1) as usize,
        ),
{
    let length = header[4] as usize * 256 + header[5] as usize;
    if length < 1 {
        return Err(ClientError::ZeroLength);
    }
    Ok(length - 1)
}

/// An exception response to `fc` (its first byte is `fc | 0x80`) is an
/// error carrying the exception code (0 when there is none).
pub fn check_exception(fc: u8, resp: &[u8]) -> (r: Result<(), ClientError>)
    ensures
        resp@.len() > 0 && resp@[0] == (fc | 0x80) ==> r == Err::<(), ClientError>(
            ClientError::Exception {
                fc: fc | 0x80,
                code: if resp@.len() > 1 {
                    resp@[1]
                } else {
                    0
                },
            },
        ),
        !(resp@.len() > 0 && resp@[0] == (fc | 0x80)) ==> r is Ok,
{
    if resp.len() > 0 && resp[0] == (fc | 0x80) {
        let code = if resp.len() > 1 {
            resp[1]
        } else {
            0
        };
        return Err(ClientError::Exception { fc: fc | 0x80, code });
    }
    Ok(())
}

/// The `count` big-endian registers of an FC 0x03 response.
pub open spec fn spec_registers(resp: Seq<u8>, count: int) -> Seq<u16> {
    Seq::new(count as nat, |i: int| be16(resp[2 + 2 * i], resp[3 + 2 * i]) as u16)
}

/// Decode the registers of an FC 0x03 response `[fc, byte_count,
/// values…]`.  A response holding fewer registers than asked for, though
/// its byte count fits, is not decoded (`requires`).
pub fn decode_registers(resp: &[u8], count: u16) -> (r: Result<Vec<u16>, ClientError>)
    requires
        spec_registers_complete(resp@, count as int),
    ensures
        resp@.len() < 2 ==> r == Err::<Vec<u16>, ClientError>(
            ClientError::RegistersTooShort { len: resp@.len() as usize },
        ),
        resp@.len() >= 2 && resp@.len() < 2 + resp@[1] ==> r == Err::<Vec<u16>, ClientError>(
            ClientError::Truncated { fc: 0x03 },
        ),
        resp@.len() >= 2 + resp@[1] ==> (r matches Ok(v) && v@ == spec_registers(resp@, count as int)),
{
    if resp.len() < 2 {
        return Err(ClientError::RegistersTooShort { len: resp.len() });
    }
    let byte_count = resp[1] as usize;
    if resp.len() < 2 + byte_count {
        return Err(ClientError::Truncated { fc: 0x03 });
    }
    let mut regs: Vec<u16> = Vec::with_capacity(count as usize);
    let mut i: usize = 0;
    while i < count as usize
        invariant
            i <= count,
            resp@.len() >= 2 + 2 * count,
            regs@ == spec_registers(resp@, i as int),
        decreases count - i,
    {
        let h = resp[2 + i * 2] as u16;
        let l = resp[2 + i * 2 + 1] as u16;
        regs.push(h * 256 + l);
        i += 1;
        proof {
            assert(regs@ =~= spec_registers(resp@, i as int));
        }
    }
    Ok(regs)
}

/// Bit `i` of a bit-packed response, least significant bit first.
pub open spec fn spec_packed_bit(resp: Seq<u8>, i: int) -> bool {
    (resp[2 + i / 8] >> ((i % 8) as u8)) & 1 == 1
}

/// The `count` bits of an FC 0x01 / 0x02 response.
pub open spec fn spec_bits(resp: Seq<u8>, count: int) -> Seq<bool> {
    Seq::new(count as nat, |i: int| spec_packed_bit(resp, i))
}

/// Decode the bits of an FC 0x01 / 0x02 response `[fc, byte_count,
/// packed…]`.  A response holding fewer bits than asked for, though its
/// byte count fits, is not decoded (`requires`).
pub fn decode_bits(fc: u8, resp: &[u8], count: u16) -> (r: Result<Vec<bool>, ClientError>)
    requires
        spec_bits_complete(resp@, count as int),
    ensures
        resp@.len() < 2 ==> r == Err::<Vec<bool>, ClientError>(ClientError::BitsTooShort { fc }),
        resp@.len() >= 2 && resp@.len() < 2 + resp@[1] ==> r == Err::<Vec<bool>, ClientError>(
            ClientError::Truncated { fc },
        ),
        resp@.len() >= 2 + resp@[1] ==> (r matches Ok(v) && v@ == spec_bits(resp@, count as int)),
{
    if resp.len() < 2 {
        return Err(ClientError::BitsTooShort { fc });
    }
    let byte_count = resp[1] as usize;
    if resp.len() < 2 + byte_count {
        return Err(ClientError::Truncated { fc });
    }
    let mut bits: Vec<bool> = Vec::with_capacity(count as usize);
    let mut i: usize = 0;
    while i < count as usize
        invariant
            i <= count,
            count == 0 || resp@.len() >= 2 + (count - 1) / 8 + 1,
            bits@ == spec_bits(resp@, i as int),
        decreases count - i,
    {
        let byte_idx = i / 8;
        let bit_idx = i % 8;
        let set = (resp[2 + byte_idx] >> (bit_idx as u8)) & 1 == 1;
        bits.push(set);
        i += 1;
        proof {
            assert(bits@ =~= spec_bits(resp@, i as int));
        }
    }
    Ok(bits)
}

} // verus!
