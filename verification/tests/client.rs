use std::cell::RefCell;
use std::collections::VecDeque;
use std::rc::Rc;

use sequent_gateway::validate::client::{
    check_exception, decode_bits, decode_registers, request_data, response_pdu_len, ClientError,
    ModbusClient, ModbusStream, TransactError,
};

/// A stream that logs what is written and serves reads from a queue of
/// byte chunks (`None` = a failed read).
#[derive(Clone)]
struct MockStream {
    sent: Rc<RefCell<Vec<Vec<u8>>>>,
    replies: Rc<RefCell<VecDeque<Option<Vec<u8>>>>>,
}

impl MockStream {
    fn new() -> Self {
        MockStream { sent: Rc::new(RefCell::new(Vec::new())), replies: Rc::new(RefCell::new(VecDeque::new())) }
    }
    /// Queue a response: its header, then its PDU.
    fn respond(&self, tid: u16, unit: u8, pdu: &[u8]) {
        let len = (pdu.len() + 1) as u16;
        let header = vec![(tid >> 8) as u8, tid as u8, 0, 0, (len >> 8) as u8, len as u8, unit];
        self.replies.borrow_mut().push_back(Some(header));
        self.replies.borrow_mut().push_back(Some(pdu.to_vec()));
    }
    fn fail_read(&self) {
        self.replies.borrow_mut().push_back(None);
    }
    fn take_sent(&self) -> Vec<Vec<u8>> {
        std::mem::take(&mut *self.sent.borrow_mut())
    }
}

impl ModbusStream for MockStream {
    fn write_all(&mut self, data: &[u8]) -> Result<(), String> {
        self.sent.borrow_mut().push(data.to_vec());
        Ok(())
    }
    fn read_exact(&mut self, buf: &mut [u8]) -> Result<(), String> {
        match self.replies.borrow_mut().pop_front() {
            Some(Some(bytes)) if bytes.len() == buf.len() => {
                buf.copy_from_slice(&bytes);
                Ok(())
            }
            _ => Err("timed out".to_string()),
        }
    }
}

#[test]
fn frames_carry_an_incrementing_transaction_id() {
    let mut c = ModbusClient::new(MockStream::new(), 2);
    let f1 = c.next_frame(0x03, &request_data(8, 2));
    assert_eq!(f1, vec![0, 1, 0, 0, 0, 6, 2, 0x03, 0, 8, 0, 2]);
    c.set_unit_id(7);
    let f2 = c.next_frame(0x05, &request_data(0, 0xFF00));
    assert_eq!(f2, vec![0, 2, 0, 0, 0, 6, 7, 0x05, 0, 0, 0xFF, 0x00]);
    assert_eq!(c.transaction_id, 2);
}

#[test]
fn transaction_id_wraps() {
    let mut c = ModbusClient::new(MockStream::new(), 1);
    c.transaction_id = 0xFFFF;
    let f = c.next_frame(0x01, &[]);
    assert_eq!(f, vec![0, 0, 0, 0, 0, 2, 1, 0x01]);
    assert_eq!(c.transaction_id, 0);
}

#[test]
fn response_length_excludes_unit_id() {
    assert_eq!(response_pdu_len(&[0, 1, 0, 0, 0, 5, 1]), Ok(4));
    assert_eq!(response_pdu_len(&[0, 1, 0, 0, 0, 0, 1]), Err(ClientError::ZeroLength));
    assert_eq!(ClientError::ZeroLength.message(), "MBAP length is zero");
}

#[test]
fn exception_responses_are_errors() {
    assert_eq!(check_exception(0x03, &[0x03, 2, 0, 1]), Ok(()));
    let e = check_exception(0x03, &[0x83, 0x02]).unwrap_err();
    assert_eq!(e, ClientError::Exception { fc: 0x83, code: 0x02 });
    assert_eq!(e.message(), "Modbus exception FC=0x83 code=0x02");
    assert_eq!(check_exception(0x05, &[0x85]), Err(ClientError::Exception { fc: 0x85, code: 0 }));
    assert_eq!(check_exception(0x01, &[]), Ok(()));
}

#[test]
fn registers_decode_big_endian() {
    assert_eq!(decode_registers(&[0x03, 4, 0x01, 0xF4, 0x04, 0xB0], 2), Ok(vec![500, 1200]));
    let e = decode_registers(&[0x03], 1).unwrap_err();
    assert_eq!(e.message(), "FC03 response too short (1 bytes)");
    let e = decode_registers(&[0x03, 4, 0x01], 2).unwrap_err();
    assert_eq!(e, ClientError::Truncated { fc: 0x03 });
    assert_eq!(e.message(), "FC03 response truncated");
}

#[test]
fn bits_decode_lsb_first() {
    assert_eq!(
        decode_bits(0x01, &[0x01, 2, 0b0000_0101, 0b0000_0001], 10),
        Ok(vec![true, false, true, false, false, false, false, false, true, false])
    );
    let e = decode_bits(0x02, &[0x02], 8).unwrap_err();
    assert_eq!(e.message(), "FC02 response too short");
    assert_eq!(decode_bits(0x0F, &[0x01, 3, 0], 1).unwrap_err().message(), "FC0F response truncated");
}

#[test]
fn read_holding_registers_over_a_stream() {
    let stream = MockStream::new();
    let mut c = ModbusClient::new(stream.clone(), 1);
    stream.respond(1, 1, &[0x03, 4, 0x01, 0xF4, 0x04, 0xB0]);
    assert_eq!(c.read_holding_registers(8, 2), Ok(vec![500, 1200]));
    assert_eq!(stream.take_sent(), vec![vec![0, 1, 0, 0, 0, 6, 1, 0x03, 0, 8, 0, 2]]);
}

#[test]
fn read_coils_and_inputs_over_a_stream() {
    let stream = MockStream::new();
    let mut c = ModbusClient::new(stream.clone(), 3);
    stream.respond(1, 3, &[0x01, 1, 0b0000_0110]);
    assert_eq!(c.read_coils(0, 3), Ok(vec![false, true, true]));
    stream.respond(2, 3, &[0x02, 1, 0b1000_0000]);
    assert_eq!(c.read_discrete_inputs(0, 8).unwrap()[7], true);
    let sent = stream.take_sent();
    assert_eq!(sent[1], vec![0, 2, 0, 0, 0, 6, 3, 0x02, 0, 0, 0, 8]);
}

#[test]
fn writes_and_exceptions_over_a_stream() {
    let stream = MockStream::new();
    let mut c = ModbusClient::new(stream.clone(), 1);
    stream.respond(1, 1, &[0x05, 0, 4, 0xFF, 0x00]);
    assert_eq!(c.write_single_coil(4, true), Ok(()));
    stream.respond(2, 1, &[0x86, 0x02]);
    let e = c.write_single_register(30, 7).unwrap_err();
    assert_eq!(e, TransactError::Client(ClientError::Exception { fc: 0x86, code: 0x02 }));
    assert_eq!(e.message(), "Modbus exception FC=0x86 code=0x02");
    let sent = stream.take_sent();
    assert_eq!(sent[0], vec![0, 1, 0, 0, 0, 6, 1, 0x05, 0, 4, 0xFF, 0x00]);
    assert_eq!(sent[1], vec![0, 2, 0, 0, 0, 6, 1, 0x06, 0, 30, 0, 7]);
}

#[test]
fn stream_failures_and_short_responses() {
    let stream = MockStream::new();
    let mut c = ModbusClient::new(stream.clone(), 1);
    stream.fail_read();
    let e = c.read_coils(0, 1).unwrap_err();
    assert_eq!(e.message(), "Modbus TCP read header: timed out");
    assert_eq!(c.transaction_id, 1);
    stream.respond(2, 1, &[0x03, 2, 0x00, 0x01]);
    let e = c.read_holding_registers(0, 2).unwrap_err();
    assert_eq!(e, TransactError::Client(ClientError::Incomplete { fc: 0x03 }));
    assert_eq!(e.message(), "FC03 response holds fewer values than requested");
}
