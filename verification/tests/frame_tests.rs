//! Tests for the frame codec: parsing, dispatch and response bytes.

use modbus_poll::context::Context;
use modbus_poll::context::CtxError;
use modbus_poll::frame::EXC_ILLEGAL_DATA_ADDRESS;
use modbus_poll::frame::EXC_ILLEGAL_DATA_VALUE;
use modbus_poll::frame::EXC_ILLEGAL_FUNCTION;
use modbus_poll::frame::Func;
use modbus_poll::frame::ParseResult;
use modbus_poll::frame::ParsedRequest;
use modbus_poll::frame::exception_response;
use modbus_poll::frame::execute_read;
use modbus_poll::frame::execute_write;
use modbus_poll::frame::is_read_func;
use modbus_poll::frame::parse_request;
use modbus_poll::storage::Storage;

/// A TCP-framed request: header for `unit`, then the payload bytes.
fn framed(tr: u16, unit: u8, payload: &[u8]) -> Vec<u8> {
    let len = (payload.len() + 1) as u16;
    let mut b = vec![
        (tr >> 8) as u8,
        (tr & 0xFF) as u8,
        0,
        0,
        (len >> 8) as u8,
        (len & 0xFF) as u8,
        unit,
    ];
    b.extend_from_slice(payload);
    b
}

fn read_req(tr: u16, unit: u8, code: u8, addr: u16, count: u16) -> Vec<u8> {
    framed(
        tr,
        unit,
        &[
            code,
            (addr >> 8) as u8,
            (addr & 0xFF) as u8,
            (count >> 8) as u8,
            (count & 0xFF) as u8,
        ],
    )
}

fn write_single_req(tr: u16, unit: u8, code: u8, addr: u16, value: u16) -> Vec<u8> {
    framed(
        tr,
        unit,
        &[
            code,
            (addr >> 8) as u8,
            (addr & 0xFF) as u8,
            (value >> 8) as u8,
            (value & 0xFF) as u8,
        ],
    )
}

fn write_multi_req(tr: u16, unit: u8, code: u8, addr: u16, count: u16, data: &[u8]) -> Vec<u8> {
    let mut payload = vec![
        code,
        (addr >> 8) as u8,
        (addr & 0xFF) as u8,
        (count >> 8) as u8,
        (count & 0xFF) as u8,
        data.len() as u8,
    ];
    payload.extend_from_slice(data);
    framed(tr, unit, &payload)
}

#[test]
fn parse_read_holdings_accept() {
    let b = read_req(0x1234, 1, 3, 7, 2);
    let r = parse_request(1, &b);
    assert_eq!(
        r,
        ParseResult::Accept(ParsedRequest {
            func: Func::ReadHoldings,
            addr: 7,
            count: 2,
            response_required: true,
        })
    );
}

#[test]
fn parse_ignores_other_unit() {
    let b = read_req(1, 9, 3, 0, 1);
    assert_eq!(parse_request(1, &b), ParseResult::Ignored);
}

#[test]
fn parse_rejects_unknown_function() {
    let b = framed(1, 1, &[8, 0, 0, 0, 1]);
    assert_eq!(
        parse_request(1, &b),
        ParseResult::Reject {
            responding_to: 8,
            exception: EXC_ILLEGAL_FUNCTION,
        }
    );
}

#[test]
fn parse_rejects_oversize_count() {
    let b = read_req(1, 1, 3, 0, 126);
    assert_eq!(
        parse_request(1, &b),
        ParseResult::Reject {
            responding_to: 3,
            exception: EXC_ILLEGAL_DATA_VALUE,
        }
    );
}

#[test]
fn malformed_frames_are_broken() {
    // truncated header
    assert_eq!(parse_request(1, &vec![0, 1, 0, 0]), ParseResult::Broken);
    // nonzero protocol id
    let mut b = read_req(1, 1, 3, 0, 1);
    b[2] = 1;
    assert_eq!(parse_request(1, &b), ParseResult::Broken);
    // declared length larger than any frame
    let mut b = read_req(1, 1, 3, 0, 1);
    b[4] = 0;
    b[5] = 251;
    assert_eq!(parse_request(1, &b), ParseResult::Broken);
    // a short read padded with zeros has a zero length field
    let mut b = vec![0u8, 1];
    b.resize(256, 0);
    assert_eq!(parse_request(1, &b), ParseResult::Broken);
}

#[test]
fn read_holding_returns_stored_value() {
    let mut st = Storage::new();
    st.holdings[0] = 5;
    let b = read_req(0x1234, 1, 3, 0, 1);
    let req = match parse_request(1, &b) {
        ParseResult::Accept(req) => req,
        other => panic!("unexpected parse result {:?}", other),
    };
    assert!(is_read_func(req.func));
    let resp = execute_read(&st, 1, &req, &b);
    assert_eq!(resp, vec![0x12, 0x34, 0, 0, 0, 5, 1, 3, 2, 0, 5]);
}

#[test]
fn read_out_of_range_is_exception() {
    let st = Storage::new();
    let b = read_req(0x0102, 1, 3, 999, 2);
    let req = match parse_request(1, &b) {
        ParseResult::Accept(req) => req,
        other => panic!("unexpected parse result {:?}", other),
    };
    let resp = execute_read(&st, 1, &req, &b);
    assert_eq!(
        resp,
        vec![1, 2, 0, 0, 0, 3, 1, 0x83, EXC_ILLEGAL_DATA_ADDRESS]
    );
}

#[test]
fn write_single_register_updates_context() {
    let mut st = Storage::new();
    let b = write_single_req(0xABCD, 1, 6, 0, 42);
    let req = match parse_request(1, &b) {
        ParseResult::Accept(req) => req,
        other => panic!("unexpected parse result {:?}", other),
    };
    assert!(!is_read_func(req.func));
    let resp = execute_write(&mut st, 1, &req, &b).unwrap().unwrap();
    assert_eq!(resp, vec![0xAB, 0xCD, 0, 0, 0, 6, 1, 6, 0, 0, 0, 42]);
    assert_eq!(st.holdings[0], 42);
    // a subsequent read at address 0 returns 42
    let rb = read_req(1, 1, 3, 0, 1);
    let rreq = match parse_request(1, &rb) {
        ParseResult::Accept(req) => req,
        other => panic!("unexpected parse result {:?}", other),
    };
    let rresp = execute_read(&st, 1, &rreq, &rb);
    assert_eq!(rresp[9..11], [0, 42]);
}

#[test]
fn write_single_coil_values() {
    let mut st = Storage::new();
    // a value that is neither set nor clear is an illegal data value
    let b = write_single_req(1, 1, 5, 2, 0x1234);
    let req = match parse_request(1, &b) {
        ParseResult::Accept(req) => req,
        other => panic!("unexpected parse result {:?}", other),
    };
    let resp = execute_write(&mut st, 1, &req, &b).unwrap().unwrap();
    assert_eq!(resp[7], 0x85);
    assert_eq!(resp[8], EXC_ILLEGAL_DATA_VALUE);
    assert!(!st.coils[2]);
    // set
    let b = write_single_req(1, 1, 5, 2, 0xFF00);
    let req = match parse_request(1, &b) {
        ParseResult::Accept(req) => req,
        other => panic!("unexpected parse result {:?}", other),
    };
    execute_write(&mut st, 1, &req, &b).unwrap().unwrap();
    assert!(st.coils[2]);
    // clear
    let b = write_single_req(1, 1, 5, 2, 0x0000);
    let req = match parse_request(1, &b) {
        ParseResult::Accept(req) => req,
        other => panic!("unexpected parse result {:?}", other),
    };
    execute_write(&mut st, 1, &req, &b).unwrap().unwrap();
    assert!(!st.coils[2]);
}

#[test]
fn write_multiple_registers() {
    let mut st = Storage::new();
    let b = write_multi_req(7, 1, 16, 10, 2, &[0, 1, 0, 2]);
    let req = match parse_request(1, &b) {
        ParseResult::Accept(req) => req,
        other => panic!("unexpected parse result {:?}", other),
    };
    let resp = execute_write(&mut st, 1, &req, &b).unwrap().unwrap();
    assert_eq!(resp, vec![0, 7, 0, 0, 0, 6, 1, 16, 0, 10, 0, 2]);
    assert_eq!(st.holdings[10], 1);
    assert_eq!(st.holdings[11], 2);
}

#[test]
fn write_multiple_registers_odd_bytes_is_exception() {
    let mut st = Storage::new();
    let b = write_multi_req(7, 1, 16, 10, 2, &[0, 1, 0]);
    let req = match parse_request(1, &b) {
        ParseResult::Accept(req) => req,
        other => panic!("unexpected parse result {:?}", other),
    };
    let resp = execute_write(&mut st, 1, &req, &b).unwrap().unwrap();
    assert_eq!(resp[7], 0x90);
    assert_eq!(resp[8], EXC_ILLEGAL_DATA_ADDRESS);
    assert_eq!(st.holdings[10], 0);
}

#[test]
fn write_and_read_multiple_coils() {
    let mut st = Storage::new();
    // ten coils, alternating, least significant bit first: 0b0101010101
    let b = write_multi_req(3, 1, 15, 0, 10, &[0x55, 0x01]);
    let req = match parse_request(1, &b) {
        ParseResult::Accept(req) => req,
        other => panic!("unexpected parse result {:?}", other),
    };
    let resp = execute_write(&mut st, 1, &req, &b).unwrap().unwrap();
    assert_eq!(resp, vec![0, 3, 0, 0, 0, 6, 1, 15, 0, 0, 0, 10]);
    for i in 0..10 {
        assert_eq!(st.coils[i], i % 2 == 0);
    }
    // read them back, packed the same way
    let rb = read_req(4, 1, 1, 0, 10);
    let rreq = match parse_request(1, &rb) {
        ParseResult::Accept(req) => req,
        other => panic!("unexpected parse result {:?}", other),
    };
    let rresp = execute_read(&st, 1, &rreq, &rb);
    assert_eq!(rresp, vec![0, 4, 0, 0, 0, 5, 1, 1, 2, 0x55, 0x01]);
}

#[test]
fn write_coils_with_missing_data_is_exception() {
    let mut st = Storage::new();
    // nine coils but only one data byte
    let b = write_multi_req(3, 1, 15, 0, 9, &[0xFF]);
    let req = match parse_request(1, &b) {
        ParseResult::Accept(req) => req,
        other => panic!("unexpected parse result {:?}", other),
    };
    let resp = execute_write(&mut st, 1, &req, &b).unwrap().unwrap();
    assert_eq!(resp[7], 0x8F);
    assert_eq!(resp[8], EXC_ILLEGAL_DATA_ADDRESS);
    assert!(!st.coils[0]);
}

#[test]
fn broadcast_write_has_no_reply() {
    let mut st = Storage::new();
    let b = write_single_req(1, 0, 5, 3, 0xFF00);
    let req = match parse_request(1, &b) {
        ParseResult::Accept(req) => req,
        other => panic!("unexpected parse result {:?}", other),
    };
    assert!(!req.response_required);
    let resp = execute_write(&mut st, 1, &req, &b).unwrap();
    assert!(resp.is_none());
    assert!(st.coils[3]);
}

#[test]
fn responses_echo_transaction_and_unit_ids() {
    let mut st = Storage::new();
    let b = read_req(0xBEEF, 1, 4, 0, 3);
    let req = match parse_request(1, &b) {
        ParseResult::Accept(req) => req,
        other => panic!("unexpected parse result {:?}", other),
    };
    let resp = execute_read(&st, 1, &req, &b);
    assert_eq!(&resp[0..2], &b[0..2]);
    assert_eq!(resp[6], b[6]);

    let wb = write_single_req(0x55AA, 1, 6, 1, 9);
    let wreq = match parse_request(1, &wb) {
        ParseResult::Accept(req) => req,
        other => panic!("unexpected parse result {:?}", other),
    };
    let wresp = execute_write(&mut st, 1, &wreq, &wb).unwrap().unwrap();
    assert_eq!(&wresp[0..2], &wb[0..2]);
    assert_eq!(wresp[6], wb[6]);
}

#[test]
fn exception_response_wraps_high_function_codes() {
    let b = framed(1, 1, &[0x90, 0, 0]);
    let resp = exception_response(&b, 1, 0x90, EXC_ILLEGAL_FUNCTION);
    assert_eq!(resp, vec![0, 1, 0, 0, 0, 3, 1, 0x10, EXC_ILLEGAL_FUNCTION]);
}

#[test]
fn storage_reports_illegal_addresses() {
    let mut st = Storage::new();
    assert_eq!(st.get_holdings(999, 2), Err(CtxError::IllegalAddress));
    assert_eq!(st.get_coils(998, 2), Ok(vec![false, false]));
    assert_eq!(
        st.set_holdings(999, &vec![1, 2]),
        Err(CtxError::IllegalAddress)
    );
    assert_eq!(st.holdings[999], 0);
    assert_eq!(st.set_holdings(998, &vec![1, 2]), Ok(()));
    assert_eq!(st.holdings[998], 1);
    assert_eq!(st.holdings[999], 2);
}
