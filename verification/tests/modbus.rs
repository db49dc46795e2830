use sequent_gateway::databank::DataBank;
use sequent_gateway::modbus::{
    build_response_frame, exception, handle_frame, mbap_header_valid, parse_mbap_header,
    pdu_length, process_request, process_routed,
};
use sequent_gateway::slave_map::SlaveMap;

#[test]
fn read_coils_packs_lsb_first() {
    let mut db = DataBank::new();
    db.coils[0] = true;
    db.coils[2] = true;
    db.coils[9] = true;
    let r = process_request(0x01, &[0, 0, 0, 10], &mut db);
    assert_eq!(r, vec![0x01, 2, 0b0000_0101, 0b0000_0010]);
}

#[test]
fn read_discrete_inputs_from_offset() {
    let mut db = DataBank::new();
    db.discrete_inputs[3] = true;
    db.discrete_inputs[7] = true;
    let r = process_request(0x02, &[0, 3, 0, 5], &mut db);
    assert_eq!(r, vec![0x02, 1, 0b0001_0001]);
}

#[test]
fn read_holding_registers_big_endian() {
    let mut db = DataBank::new();
    db.holding_registers[8] = 2412;
    db.holding_registers[9] = 0xABCD;
    let r = process_request(0x03, &[0, 8, 0, 2], &mut db);
    assert_eq!(r, vec![0x03, 4, 0x09, 0x6C, 0xAB, 0xCD]);
}

#[test]
fn read_out_of_range_is_address_exception() {
    let mut db = DataBank::new();
    assert_eq!(process_request(0x01, &[0, 19, 0, 2], &mut db), vec![0x81, 0x02]);
    assert_eq!(process_request(0x03, &[0, 24, 0, 2], &mut db), vec![0x83, 0x02]);
    assert_eq!(process_request(0x03, &[0, 24, 0, 1], &mut db)[0], 0x03);
}

#[test]
fn bad_quantity_is_value_exception() {
    let mut db = DataBank::new();
    assert_eq!(process_request(0x01, &[0, 0, 0, 0], &mut db), vec![0x81, 0x03]);
    assert_eq!(process_request(0x03, &[0, 0, 0, 126], &mut db), vec![0x83, 0x03]);
    assert_eq!(process_request(0x02, &[0, 0, 0], &mut db), vec![0x82, 0x03]);
}

#[test]
fn unknown_function_is_rejected() {
    let mut db = DataBank::new();
    assert_eq!(process_request(0x2B, &[], &mut db), vec![0xAB, 0x01]);
    assert_eq!(exception(0x04, 0x02), vec![0x84, 0x02]);
}

#[test]
fn write_single_coil_then_read_back() {
    let mut db = DataBank::new();
    let r = process_request(0x05, &[0, 17, 0xFF, 0x00], &mut db);
    assert_eq!(r, vec![0x05, 0, 17, 0xFF, 0x00]);
    assert!(db.coils[17]);
    let r = process_request(0x01, &[0, 17, 0, 1], &mut db);
    assert_eq!(r, vec![0x01, 1, 1]);
    process_request(0x05, &[0, 17, 0x00, 0x00], &mut db);
    assert!(!db.coils[17]);
}

#[test]
fn write_single_coil_rejects_other_values() {
    let mut db = DataBank::new();
    assert_eq!(process_request(0x05, &[0, 1, 0x12, 0x34], &mut db), vec![0x85, 0x03]);
    assert_eq!(process_request(0x05, &[0, 20, 0xFF, 0x00], &mut db), vec![0x85, 0x02]);
    assert_eq!(db.coils, [false; 20]);
}

#[test]
fn write_multiple_coils_sets_range() {
    let mut db = DataBank::new();
    let r = process_request(0x0F, &[0, 2, 0, 10, 2, 0b1100_0101, 0b0000_0011], &mut db);
    assert_eq!(r, vec![0x0F, 0, 2, 0, 10]);
    let expect = [
        false, false, true, false, true, false, false, false, true, true, true, true, false,
        false, false, false, false, false, false, false,
    ];
    assert_eq!(db.coils, expect);
}

#[test]
fn write_multiple_coils_checks_byte_count() {
    let mut db = DataBank::new();
    assert_eq!(process_request(0x0F, &[0, 0, 0, 10, 1, 0xFF], &mut db), vec![0x8F, 0x03]);
    assert_eq!(process_request(0x0F, &[0, 15, 0, 8, 1, 0xFF], &mut db), vec![0x8F, 0x02]);
    assert_eq!(db.coils, [false; 20]);
}

#[test]
fn frame_round_trip() {
    let h = parse_mbap_header(&[0x12, 0x34, 0, 0, 0, 6, 7]);
    assert_eq!(h.transaction_id, 0x1234);
    assert_eq!(h.unit_id, 7);
    assert!(mbap_header_valid(&h));
    assert_eq!(pdu_length(&h), 5);
    let mut db = DataBank::new();
    db.holding_registers[0] = 1;
    let map = SlaveMap::new(1, 2, true);
    let frame = handle_frame(&h, &[0x03, 0, 0, 0, 1], &map, &mut db);
    assert_eq!(frame, vec![0x12, 0x34, 0, 0, 0, 5, 7, 0x03, 2, 0, 1]);
    assert_eq!(build_response_frame(&h, &[0x81, 0x02]), vec![0x12, 0x34, 0, 0, 0, 3, 7, 0x81, 0x02]);
}

#[test]
fn invalid_headers_are_skipped() {
    assert!(!mbap_header_valid(&parse_mbap_header(&[0, 1, 0, 1, 0, 6, 1])));
    assert!(!mbap_header_valid(&parse_mbap_header(&[0, 1, 0, 0, 0, 0, 1])));
    assert!(!mbap_header_valid(&parse_mbap_header(&[0, 1, 0, 0, 0, 254, 1])));
    assert!(!mbap_header_valid(&parse_mbap_header(&[0, 1, 0, 0, 0, 1, 1])));
    assert!(mbap_header_valid(&parse_mbap_header(&[0, 1, 0, 0, 0, 2, 1])));
}

#[test]
fn write_single_register_reads_back() {
    let mut db = DataBank::new();
    assert_eq!(process_request(0x06, &[0, 16, 0x01, 0xF4], &mut db), vec![0x06, 0, 16, 0x01, 0xF4]);
    assert_eq!(db.holding_registers[16], 500);
    assert_eq!(process_request(0x03, &[0, 16, 0, 1], &mut db), vec![0x03, 2, 0x01, 0xF4]);
}

#[test]
fn write_single_register_outside_outputs_is_refused() {
    let mut db = DataBank::new();
    assert_eq!(process_request(0x06, &[0, 0, 0, 1], &mut db), vec![0x86, 0x02]);
    assert_eq!(process_request(0x06, &[0, 24, 0, 1], &mut db), vec![0x86, 0x02]);
    assert_eq!(process_request(0x06, &[0, 16, 0], &mut db), vec![0x86, 0x03]);
    assert_eq!(db.holding_registers, [0u16; 25]);
}

#[test]
fn write_multiple_registers_sets_range() {
    let mut db = DataBank::new();
    let r = process_request(0x10, &[0, 20, 0, 2, 4, 0x04, 0xB0, 0x00, 0x07], &mut db);
    assert_eq!(r, vec![0x10, 0, 20, 0, 2]);
    assert_eq!(db.holding_registers[20], 1200);
    assert_eq!(db.holding_registers[21], 7);
    assert_eq!(db.holding_registers[19], 0);
    assert_eq!(db.coils, [false; 20]);
}

#[test]
fn write_multiple_registers_errors() {
    let mut db = DataBank::new();
    // byte count does not match the quantity
    assert_eq!(process_request(0x10, &[0, 16, 0, 2, 3, 0, 1, 0], &mut db), vec![0x90, 0x03]);
    // past the last analog output
    assert_eq!(process_request(0x10, &[0, 22, 0, 3, 6, 0, 1, 0, 2, 0, 3], &mut db), vec![0x90, 0x02]);
    // quantity zero
    assert_eq!(process_request(0x10, &[0, 16, 0, 0, 0], &mut db), vec![0x90, 0x03]);
    assert_eq!(db.holding_registers, [0u16; 25]);
}

#[test]
fn multi_slave_routes_by_unit_id() {
    let map = SlaveMap::new(1, 2, false);
    let mut db = DataBank::new();
    // OD output 1 on the Industrial unit is data bank coil 16.
    assert_eq!(process_routed(0x05, &[0, 0, 0xFF, 0], 2, &map, &mut db), vec![0x05, 0, 0, 0xFF, 0]);
    assert!(db.coils[16]);
    assert!(!db.coils[0]);
    // Relay 1 on the relay unit is coil 0.
    process_routed(0x05, &[0, 0, 0xFF, 0], 1, &map, &mut db);
    assert!(db.coils[0]);
    assert_eq!(process_routed(0x01, &[0, 0, 0, 4], 2, &map, &mut db), vec![0x01, 1, 0x01]);
    // The Industrial unit has 4 coils only; the relay unit no registers.
    assert_eq!(process_routed(0x01, &[0, 0, 0, 5], 2, &map, &mut db), vec![0x81, 0x02]);
    assert_eq!(process_routed(0x03, &[0, 0, 0, 1], 1, &map, &mut db), vec![0x83, 0x02]);
    // Unknown unit.
    assert_eq!(process_routed(0x03, &[0, 0, 0, 1], 9, &map, &mut db), vec![0x83, 0x0B]);
    // Unsupported function code.
    assert_eq!(process_routed(0x2B, &[], 2, &map, &mut db), vec![0xAB, 0x01]);
}

#[test]
fn multi_slave_registers_on_industrial_unit() {
    let map = SlaveMap::new(1, 2, false);
    let mut db = DataBank::new();
    db.holding_registers[8] = 2412;
    assert_eq!(process_routed(0x03, &[0, 8, 0, 1], 2, &map, &mut db), vec![0x03, 2, 0x09, 0x6C]);
    assert_eq!(process_routed(0x06, &[0, 16, 0x01, 0xF4], 2, &map, &mut db), vec![0x06, 0, 16, 0x01, 0xF4]);
    assert_eq!(db.holding_registers[16], 500);
    assert_eq!(process_routed(0x06, &[0, 16, 0x01, 0xF4], 1, &map, &mut db), vec![0x86, 0x02]);
}

#[test]
fn single_slave_answers_every_unit() {
    let map = SlaveMap::new(1, 2, true);
    let mut db = DataBank::new();
    db.coils[17] = true;
    assert_eq!(process_routed(0x01, &[0, 16, 0, 4], 42, &map, &mut db), vec![0x01, 1, 0x02]);
}
