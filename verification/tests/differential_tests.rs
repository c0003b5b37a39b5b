//! Differential tests: the frame codec against the `rmodbus` reference
//! implementation, frame by frame, on response bytes and storage effects.

use modbus_poll::context::Context;
use modbus_poll::frame::ParseResult;
use modbus_poll::frame::execute_read;
use modbus_poll::frame::execute_write;
use modbus_poll::frame::exception_response;
use modbus_poll::frame::is_read_func;
use modbus_poll::frame::parse_request;
use modbus_poll::storage::Storage;
use rmodbus::ModbusProto;
use rmodbus::server::ModbusFrame;
use rmodbus::server::context::ModbusContext;
use rmodbus::server::storage::ModbusStorageSmall;

/// Run one frame through `rmodbus` and return (parse ok, response bytes).
fn run_reference(ctx: &mut ModbusStorageSmall, request: &[u8]) -> (bool, Vec<u8>) {
    let mut buf: [u8; 256] = [0; 256];
    buf[..request.len()].copy_from_slice(request);
    let mut response: Vec<u8> = Vec::new();
    let mut frame = ModbusFrame::new(1, &buf, ModbusProto::TcpUdp, &mut response);
    if frame.parse().is_err() {
        return (false, Vec::new());
    }
    if frame.processing_required {
        let result = if frame.readonly {
            frame.process_read(ctx)
        } else {
            frame.process_write(ctx)
        };
        if result.is_err() {
            return (false, Vec::new());
        }
    }
    if frame.response_required {
        frame.finalize_response().unwrap();
        (true, response)
    } else {
        (true, Vec::new())
    }
}

/// Run one frame through this crate and return (parse ok, response bytes).
fn run_ours(ctx: &mut Storage, request: &[u8]) -> (bool, Vec<u8>) {
    let mut padded = request.to_vec();
    padded.resize(256, 0);
    match parse_request(1, &padded) {
        ParseResult::Broken => (false, Vec::new()),
        ParseResult::Ignored => (true, Vec::new()),
        ParseResult::Reject {
            responding_to,
            exception,
        } => (
            true,
            exception_response(&padded, 1, responding_to, exception),
        ),
        ParseResult::Accept(req) => {
            if is_read_func(req.func) {
                (true, execute_read(&*ctx, 1, &req, &padded))
            } else {
                match execute_write(ctx, 1, &req, &padded) {
                    Err(_) => (false, Vec::new()),
                    Ok(None) => (true, Vec::new()),
                    Ok(Some(resp)) => (true, resp),
                }
            }
        }
    }
}

fn compare_on(requests: &[Vec<u8>]) {
    let mut reference = ModbusStorageSmall::new();
    let mut ours = Storage::new();
    for (n, request) in requests.iter().enumerate() {
        let (ref_ok, ref_resp) = run_reference(&mut reference, request);
        let (our_ok, our_resp) = run_ours(&mut ours, request);
        assert_eq!(ref_ok, our_ok, "request {}: outcome differs", n);
        assert_eq!(ref_resp, our_resp, "request {}: response differs", n);
    }
    // the storages agree afterwards
    for addr in 0..40u16 {
        assert_eq!(
            reference.get_holding(addr).unwrap(),
            ours.get_holdings(addr, 1).unwrap()[0]
        );
        assert_eq!(
            reference.get_coil(addr).unwrap(),
            ours.get_coils(addr, 1).unwrap()[0]
        );
    }
}

fn framed(tr: u16, unit: u8, payload: &[u8]) -> Vec<u8> {
    let len = (payload.len() + 1) as u16;
    let mut b = vec![
        (tr >> 8) as u8,
        (tr & 0xFF) as u8,
        0,
        0,
        (len >> 8) as u8,
        (len & 0xFF) as u8,
        unit,
    ];
    b.extend_from_slice(payload);
    b
}

#[test]
fn reads_match_reference() {
    compare_on(&[
        // write some registers and coils first, then read them back
        framed(1, 1, &[6, 0, 0, 0, 42]),
        framed(2, 1, &[16, 0, 4, 0, 3, 6, 1, 2, 3, 4, 5, 6]),
        framed(3, 1, &[5, 0, 2, 0xFF, 0]),
        framed(4, 1, &[15, 0, 8, 0, 11, 2, 0xA5, 0x03]),
        framed(5, 1, &[3, 0, 0, 0, 8]),
        framed(6, 1, &[4, 0, 0, 0, 5]),
        framed(7, 1, &[1, 0, 0, 0, 16]),
        framed(8, 1, &[2, 0, 0, 0, 3]),
        // reads beyond the storage are exceptions
        framed(9, 1, &[3, 3, 0xE8, 0, 2]),
        framed(10, 1, &[1, 3, 0xE8, 0, 2]),
    ]);
}

#[test]
fn writes_match_reference() {
    compare_on(&[
        framed(1, 1, &[6, 0, 9, 0x12, 0x34]),
        // an invalid single-coil value
        framed(2, 1, &[5, 0, 1, 0x12, 0x34]),
        // out-of-range writes
        framed(3, 1, &[6, 3, 0xE8, 0, 1]),
        framed(4, 1, &[5, 3, 0xE8, 0xFF, 0]),
        // broadcast writes are processed but not answered
        framed(5, 0, &[6, 0, 11, 0, 7]),
        framed(6, 255, &[5, 0, 12, 0xFF, 0]),
        // readbacks
        framed(7, 1, &[3, 0, 9, 0, 3]),
        framed(8, 1, &[1, 0, 10, 0, 4]),
    ]);
}

#[test]
fn malformed_and_rejected_frames_match_reference() {
    compare_on(&[
        // unknown function code
        framed(1, 1, &[8, 0, 0]),
        // oversize counts
        framed(2, 1, &[3, 0, 0, 0, 126]),
        framed(3, 1, &[1, 0, 0, 0x07, 0xD1]),
        // another unit's frame
        framed(4, 7, &[3, 0, 0, 0, 1]),
        // nonzero protocol id
        vec![0, 5, 0, 1, 0, 6, 1, 3, 0, 0, 0, 1],
        // length field out of range
        vec![0, 6, 0, 0, 0, 251, 1, 3, 0, 0, 0, 1],
        // truncated header, zero-padded as a short receive would be
        vec![0, 7],
        // broadcast reads and broadcast unknown functions are ignored
        framed(8, 0, &[3, 0, 0, 0, 1]),
        framed(9, 255, &[8, 0, 0]),
    ]);
}
