//! The Modbus frame codec.
//!
//! Requests are framed for TCP: a 7-byte header (2-byte transaction id,
//! 2-byte protocol id fixed at 0, 2-byte length, 1-byte unit id) followed by
//! a function-code payload. [`parse_request`] classifies a raw buffer;
//! [`execute_read`] and [`execute_write`] dispatch an accepted request
//! against a [`Context`] and build the response bytes.

use vstd::prelude::*;

use crate::context::Context;
use crate::context::overlay;

verus! {

/// Function code: read coils.
pub const FC_READ_COILS: u8 = 1;

/// Function code: read discrete inputs.
pub const FC_READ_DISCRETES: u8 = 2;

/// Function code: read holding registers.
pub const FC_READ_HOLDINGS: u8 = 3;

/// Function code: read input registers.
pub const FC_READ_INPUTS: u8 = 4;

/// Function code: write single coil.
pub const FC_WRITE_COIL: u8 = 5;

/// Function code: write single holding register.
pub const FC_WRITE_HOLDING: u8 = 6;

/// Function code: write multiple coils.
pub const FC_WRITE_COILS: u8 = 15;

/// Function code: write multiple holding registers.
pub const FC_WRITE_HOLDINGS: u8 = 16;

/// Modbus exception code: the function code has no handler.
pub const EXC_ILLEGAL_FUNCTION: u8 = 1;

/// Modbus exception code: the addressed range does not exist.
pub const EXC_ILLEGAL_DATA_ADDRESS: u8 = 2;

/// Modbus exception code: a field of the request is out of range.
pub const EXC_ILLEGAL_DATA_VALUE: u8 = 3;

/// A protocol error: the frame is malformed and receives no response.
#[derive(Clone, Copy, Debug, PartialEq, Eq, Structural)]
pub enum ModbusError {
    FrameBroken,
}

/// The function codes with an implemented handler.
#[derive(Clone, Copy, Debug, PartialEq, Eq, Structural)]
pub enum Func {
    ReadCoils,
    ReadDiscretes,
    ReadHoldings,
    ReadInputs,
    WriteCoil,
    WriteHolding,
    WriteCoils,
    WriteHoldings,
}

/// An accepted request: its handler must run.
#[derive(Clone, Copy, Debug, PartialEq, Eq, Structural)]
pub struct ParsedRequest {
    /// The requested operation.
    pub func: Func,
    /// Starting address.
    pub addr: u16,
    /// Number of items to read or write.
    pub count: u16,
    /// Whether a reply must be sent (false only for broadcast writes).
    pub response_required: bool,
}

/// The classification of a raw request buffer.
#[derive(Clone, Copy, Debug, PartialEq, Eq, Structural)]
pub enum ParseResult {
    /// Malformed framing: abort with a protocol error, send nothing.
    Broken,
    /// A frame addressed to another unit, or a broadcast with no effect here:
    /// no processing, no response.
    Ignored,
    /// A frame that is answered with an exception response and not dispatched.
    Reject { responding_to: u8, exception: u8 },
    /// A well-formed request with an implemented handler.
    Accept(ParsedRequest),
}

/// The big-endian 16-bit word at offset `i`.
pub open spec fn be16(b: Seq<u8>, i: int) -> int {
    b[i] as int * 256 + b[i + 1] as int
}

/// The handler, if any, for a raw function code.
pub open spec fn func_of(code: u8) -> Option<Func> {
    if code == FC_READ_COILS {
        Some(Func::ReadCoils)
    } else if code == FC_READ_DISCRETES {
        Some(Func::ReadDiscretes)
    } else if code == FC_READ_HOLDINGS {
        Some(Func::ReadHoldings)
    } else if code == FC_READ_INPUTS {
        Some(Func::ReadInputs)
    } else if code == FC_WRITE_COIL {
        Some(Func::WriteCoil)
    } else if code == FC_WRITE_HOLDING {
        Some(Func::WriteHolding)
    } else if code == FC_WRITE_COILS {
        Some(Func::WriteCoils)
    } else if code == FC_WRITE_HOLDINGS {
        Some(Func::WriteHoldings)
    } else {
        None
    }
}

/// The raw code of a handled function.
pub open spec fn code_of(f: Func) -> u8 {
    match f {
        Func::ReadCoils => FC_READ_COILS,
        Func::ReadDiscretes => FC_READ_DISCRETES,
        Func::ReadHoldings => FC_READ_HOLDINGS,
        Func::ReadInputs => FC_READ_INPUTS,
        Func::WriteCoil => FC_WRITE_COIL,
        Func::WriteHolding => FC_WRITE_HOLDING,
        Func::WriteCoils => FC_WRITE_COILS,
        Func::WriteHoldings => FC_WRITE_HOLDINGS,
    }
}

/// Whether the function only reads the context.
pub open spec fn is_read_spec(f: Func) -> bool {
    match f {
        Func::ReadCoils | Func::ReadDiscretes | Func::ReadHoldings | Func::ReadInputs => true,
        Func::WriteCoil | Func::WriteHolding | Func::WriteCoils | Func::WriteHoldings => false,
    }
}

/// The most items one request may touch, by function.
pub open spec fn max_count(f: Func) -> int {
    match f {
        Func::ReadCoils | Func::ReadDiscretes => 2000,
        Func::ReadHoldings | Func::ReadInputs => 125,
        Func::WriteCoil | Func::WriteHolding => 1,
        Func::WriteCoils => 1968,
        Func::WriteHoldings => 123,
    }
}

/// Classification of a payload whose function code is handled. `b` has at
/// least 8 bytes; `bc` is whether the frame is a broadcast.
pub open spec fn parse_payload_spec(f: Func, b: Seq<u8>, bc: bool) -> ParseResult {
    if is_read_spec(f) {
        if bc {
            ParseResult::Ignored
        } else if b.len() < 12 {
            ParseResult::Broken
        } else if be16(b, 10) > max_count(f) {
            ParseResult::Reject { responding_to: code_of(f), exception: EXC_ILLEGAL_DATA_VALUE }
        } else {
            ParseResult::Accept(
                ParsedRequest {
                    func: f,
                    addr: be16(b, 8) as u16,
                    count: be16(b, 10) as u16,
                    response_required: true,
                },
            )
        }
    } else if f is WriteCoil || f is WriteHolding {
        if b.len() < 10 {
            ParseResult::Broken
        } else {
            ParseResult::Accept(
                ParsedRequest {
                    func: f,
                    addr: be16(b, 8) as u16,
                    count: 1,
                    response_required: !bc,
                },
            )
        }
    } else {
        if b.len() < 13 {
            ParseResult::Broken
        } else if be16(b, 10) > max_count(f) || b[12] > 246 {
            if bc {
                ParseResult::Ignored
            } else {
                ParseResult::Reject {
                    responding_to: code_of(f),
                    exception: EXC_ILLEGAL_DATA_VALUE,
                }
            }
        } else {
            ParseResult::Accept(
                ParsedRequest {
                    func: f,
                    addr: be16(b, 8) as u16,
                    count: be16(b, 10) as u16,
                    response_required: !bc,
                },
            )
        }
    }
}

/// Classification of a raw request buffer for a server with unit id
/// `unit_id`. The framing header must carry protocol id 0 and a length field
/// between 6 and 250; frames addressed to another unit are ignored; a
/// broadcast (unit 0 or 255) is processed for writes but never answered.
pub open spec fn parse_spec(unit_id: u8, b: Seq<u8>) -> ParseResult {
    if b.len() < 7 {
        ParseResult::Broken
    } else if be16(b, 2) != 0 || be16(b, 4) < 6 || be16(b, 4) > 250 {
        ParseResult::Broken
    } else {
        let unit = b[6];
        let bc = unit == 0 || unit == 255;
        if !bc && unit != unit_id {
            ParseResult::Ignored
        } else if b.len() < 8 {
            ParseResult::Broken
        } else {
            match func_of(b[7]) {
                None => if bc {
                    ParseResult::Ignored
                } else {
                    ParseResult::Reject { responding_to: b[7], exception: EXC_ILLEGAL_FUNCTION }
                },
                Some(f) => parse_payload_spec(f, b, bc),
            }
        }
    }
}

/// Whether the function only reads the context.
pub fn is_read_func(f: Func) -> (r: bool)
    ensures
        r == is_read_spec(f),
{
    match f {
        Func::ReadCoils | Func::ReadDiscretes | Func::ReadHoldings | Func::ReadInputs => true,
        Func::WriteCoil | Func::WriteHolding | Func::WriteCoils | Func::WriteHoldings => false,
    }
}

fn func_from_code(code: u8) -> (r: Option<Func>)
    ensures
        r == func_of(code),
{
    if code == FC_READ_COILS {
        Some(Func::ReadCoils)
    } else if code == FC_READ_DISCRETES {
        Some(Func::ReadDiscretes)
    } else if code == FC_READ_HOLDINGS {
        Some(Func::ReadHoldings)
    } else if code == FC_READ_INPUTS {
        Some(Func::ReadInputs)
    } else if code == FC_WRITE_COIL {
        Some(Func::WriteCoil)
    } else if code == FC_WRITE_HOLDING {
        Some(Func::WriteHolding)
    } else if code == FC_WRITE_COILS {
        Some(Func::WriteCoils)
    } else if code == FC_WRITE_HOLDINGS {
        Some(Func::WriteHoldings)
    } else {
        None
    }
}

pub(crate) fn be16_at(b: &Vec<u8>, i: usize) -> (r: u16)
    requires
        i + 1 < b@.len(),
    ensures
        r as int == be16(b@, i as int),
{
    let n = b.len();
    proof {
        assert(i + 1 < n);
    }
    b[i] as u16 * 256 + b[i + 1] as u16
}

/// Classify a raw request buffer.
pub fn parse_request(unit_id: u8, b: &Vec<u8>) -> (r: ParseResult)
    ensures
        r == parse_spec(unit_id, b@),
{
    if b.len() < 7 {
        return ParseResult::Broken;
    }
    let proto = be16_at(b, 2);
    let length = be16_at(b, 4);
    if proto != 0 || length < 6 || length > 250 {
        return ParseResult::Broken;
    }
    let unit = b[6];
    let bc = unit == 0 || unit == 255;
    if !bc && unit != unit_id {
        return ParseResult::Ignored;
    }
    if b.len() < 8 {
        return ParseResult::Broken;
    }
    let f = match func_from_code(b[7]) {
        None => {
            if bc {
                return ParseResult::Ignored;
            }
            return ParseResult::Reject { responding_to: b[7], exception: EXC_ILLEGAL_FUNCTION };
        },
        Some(f) => f,
    };
    if is_read_func(f) {
        if bc {
            return ParseResult::Ignored;
        }
        if b.len() < 12 {
            return ParseResult::Broken;
        }
        let count = be16_at(b, 10);
        let max: u16 = if f == Func::ReadCoils || f == Func::ReadDiscretes {
            2000
        } else {
            125
        };
        if count > max {
            return ParseResult::Reject {
                responding_to: b[7],
                exception: EXC_ILLEGAL_DATA_VALUE,
            };
        }
        ParseResult::Accept(
            ParsedRequest { func: f, addr: be16_at(b, 8), count, response_required: true },
        )
    } else if f == Func::WriteCoil || f == Func::WriteHolding {
        if b.len() < 10 {
            return ParseResult::Broken;
        }
        ParseResult::Accept(
            ParsedRequest { func: f, addr: be16_at(b, 8), count: 1, response_required: !bc },
        )
    } else {
        if b.len() < 13 {
            return ParseResult::Broken;
        }
        let count = be16_at(b, 10);
        let max: u16 = if f == Func::WriteCoils {
            1968
        } else {
            123
        };
        if count > max || b[12] > 246 {
            if bc {
                return ParseResult::Ignored;
            }
            return ParseResult::Reject {
                responding_to: b[7],
                exception: EXC_ILLEGAL_DATA_VALUE,
            };
        }
        ParseResult::Accept(
            ParsedRequest { func: f, addr: be16_at(b, 8), count, response_required: !bc },
        )
    }
}


/// Two to the power `n`, for `0 <= n <= 8`.
pub open spec fn two_pow_small(n: int) -> int {
    if n <= 0 {
        1
    } else if n == 1 {
        2
    } else if n == 2 {
        4
    } else if n == 3 {
        8
    } else if n == 4 {
        16
    } else if n == 5 {
        32
    } else if n == 6 {
        64
    } else if n == 7 {
        128
    } else {
        256
    }
}

/// The value of up to eight bits, least significant first.
pub open spec fn bits_value(bits: Seq<bool>) -> int
    decreases bits.len(),
{
    if bits.len() == 0 {
        0
    } else {
        (if bits[0] {
            1int
        } else {
            0int
        }) + 2 * bits_value(bits.skip(1))
    }
}

proof fn lemma_bits_value_bound(bits: Seq<bool>)
    requires
        bits.len() <= 8,
    ensures
        0 <= bits_value(bits) < two_pow_small(bits.len() as int),
    decreases bits.len(),
{
    if bits.len() > 0 {
        lemma_bits_value_bound(bits.skip(1));
    }
}

/// How many bytes `n` bits pack into.
pub open spec fn packed_len(n: int) -> int {
    (n + 7) / 8
}

/// Byte `j` of the packed form of `bits`.
pub open spec fn byte_at(bits: Seq<bool>, j: int) -> u8 {
    bits_value(
        bits.subrange(
            8 * j,
            if 8 * j + 8 <= bits.len() {
                8 * j + 8
            } else {
                bits.len() as int
            },
        ),
    ) as u8
}

/// Bits packed into bytes, least significant bit first; a final partial byte
/// is padded with zero bits.
pub open spec fn pack_bits(bits: Seq<bool>) -> Seq<u8> {
    Seq::new(packed_len(bits.len() as int) as nat, |j: int| byte_at(bits, j))
}

/// Bit `k` (least significant first) of byte `x`, for `0 <= k < 8`.
pub open spec fn bit_of(x: u8, k: int) -> bool {
    (x as int / two_pow_small(k)) % 2 == 1
}

/// The first `count` bits of `data`, least significant bit of each byte first.
pub open spec fn unpack_bits(data: Seq<u8>, count: int) -> Seq<bool> {
    Seq::new(count as nat, |i: int| bit_of(data[i / 8], i % 8))
}

/// Words serialized big-endian, two bytes each.
pub open spec fn words_to_bytes(ws: Seq<u16>) -> Seq<u8> {
    Seq::new(
        2 * ws.len(),
        |i: int|
            if i % 2 == 0 {
                (ws[i / 2] as int / 256) as u8
            } else {
                (ws[i / 2] as int % 256) as u8
            },
    )
}

/// Big-endian words read from consecutive byte pairs; a trailing odd byte is
/// ignored.
pub open spec fn bytes_to_words(data: Seq<u8>) -> Seq<u16> {
    Seq::new((data.len() / 2) as nat, |i: int| be16(data, 2 * i) as u16)
}

fn two_pow_exec(k: usize) -> (r: u8)
    requires
        k < 8,
    ensures
        r as int == two_pow_small(k as int),
{
    if k == 0 {
        1
    } else if k == 1 {
        2
    } else if k == 2 {
        4
    } else if k == 3 {
        8
    } else if k == 4 {
        16
    } else if k == 5 {
        32
    } else if k == 6 {
        64
    } else {
        128
    }
}

fn pack_bits_exec(bits: &Vec<bool>) -> (out: Vec<u8>)
    requires
        bits@.len() <= 2000,
    ensures
        out@ == pack_bits(bits@),
{
    let n = bits.len();
    let m = (n + 7) / 8;
    let mut out: Vec<u8> = Vec::new();
    let mut j: usize = 0;
    while j < m
        invariant
            n == bits@.len(),
            n <= 2000,
            m == packed_len(n as int),
            j <= m,
            out@.len() == j,
            forall|q: int| 0 <= q < j ==> out@[q] == byte_at(bits@, q),
        decreases m - j,
    {
        let hi = if 8 * j + 8 <= n {
            8 * j + 8
        } else {
            n
        };
        let mut val: u8 = 0;
        let mut k: usize = hi;
        while k > 8 * j
            invariant
                n == bits@.len(),
                j < m,
                m == packed_len(n as int),
                8 * j <= k <= hi,
                8 * j < hi <= n,
                hi <= 8 * j + 8,
                val as int == bits_value(bits@.subrange(k as int, hi as int)),
            decreases k,
        {
            k -= 1;
            proof {
                lemma_bits_value_bound(bits@.subrange(k + 1, hi as int));
                assert(bits@.subrange(k as int, hi as int).skip(1) =~= bits@.subrange(
                    k + 1,
                    hi as int,
                ));
            }
            let b = bits[k];
            val = 2 * val + (if b {
                1
            } else {
                0
            });
        }
        proof {
            assert(val == byte_at(bits@, j as int));
        }
        out.push(val);
        j += 1;
    }
    proof {
        assert(out@ =~= pack_bits(bits@));
    }
    out
}

fn unpack_bits_exec(data: &Vec<u8>, count: u16) -> (out: Vec<bool>)
    requires
        count as int <= 8 * data@.len(),
    ensures
        out@ == unpack_bits(data@, count as int),
{
    let mut out: Vec<bool> = Vec::new();
    let mut i: usize = 0;
    while i < count as usize
        invariant
            count as int <= 8 * data@.len(),
            i <= count as usize,
            out@.len() == i,
            forall|q: int| 0 <= q < i ==> out@[q] == bit_of(data@[q / 8], q % 8),
        decreases count as int - i,
    {
        assert(i as int / 8 < data@.len());
        let byte = data[i / 8];
        let p = two_pow_exec(i % 8);
        out.push((byte / p) % 2 == 1);
        i += 1;
    }
    proof {
        assert(out@ =~= unpack_bits(data@, count as int));
    }
    out
}

fn words_to_bytes_exec(ws: &Vec<u16>) -> (out: Vec<u8>)
    ensures
        out@ == words_to_bytes(ws@),
{
    let mut out: Vec<u8> = Vec::new();
    let mut i: usize = 0;
    while i < ws.len()
        invariant
            i <= ws@.len(),
            out@ == words_to_bytes(ws@.take(i as int)),
        decreases ws@.len() - i,
    {
        let w = ws[i];
        out.push((w / 256) as u8);
        out.push((w % 256) as u8);
        proof {
            assert(out@ =~= words_to_bytes(ws@.take(i + 1)));
        }
        i += 1;
    }
    proof {
        assert(ws@.take(ws@.len() as int) =~= ws@);
    }
    out
}

fn words_from_bytes_exec(data: &Vec<u8>) -> (out: Vec<u16>)
    ensures
        out@ == bytes_to_words(data@),
{
    let n = data.len();
    let m = n / 2;
    let mut out: Vec<u16> = Vec::new();
    let mut i: usize = 0;
    while i < m
        invariant
            n == data@.len(),
            m == n as int / 2,
            i <= m,
            out@.len() == i,
            forall|q: int| 0 <= q < i ==> out@[q] as int == be16(data@, 2 * q),
        decreases m - i,
    {
        let w = be16_at(data, 2 * i);
        out.push(w);
        i += 1;
    }
    proof {
        assert(out@ =~= bytes_to_words(data@));
    }
    out
}

fn sub_vec(b: &Vec<u8>, start: usize, end: usize) -> (r: Vec<u8>)
    requires
        start <= end <= b@.len(),
    ensures
        r@ == b@.subrange(start as int, end as int),
{
    let mut r: Vec<u8> = Vec::new();
    let mut i: usize = start;
    while i < end
        invariant
            start <= i <= end <= b@.len(),
            r@ == b@.subrange(start as int, i as int),
        decreases end - i,
    {
        r.push(b[i]);
        proof {
            assert(r@ =~= b@.subrange(start as int, i + 1));
        }
        i += 1;
    }
    r
}

/// An exception response: the echoed transaction and protocol ids, a fixed
/// length of 3, the unit id, the offending function code with its high bit
/// set, and the exception code.
pub open spec fn exception_spec(b: Seq<u8>, unit_id: u8, code: u8, exc: u8) -> Seq<u8> {
    b.take(4) + seq![0u8, 3u8, unit_id, ((code as int + 0x80) % 256) as u8, exc]
}

/// A successful read reply: the echoed transaction and protocol ids, the
/// length field, the echoed unit id and function code, the byte count, and
/// the data.
pub open spec fn read_reply_spec(b: Seq<u8>, data: Seq<u8>) -> Seq<u8> {
    b.take(4) + seq![0u8, (data.len() + 3) as u8] + b.subrange(6, 8) + seq![data.len() as u8]
        + data
}

/// A successful write reply: the echoed transaction and protocol ids, a fixed
/// length of 6, and the echoed unit id, function code, address and value or
/// count fields.
pub open spec fn write_reply_spec(b: Seq<u8>) -> Seq<u8> {
    b.take(4) + seq![0u8, 6u8] + b.subrange(6, 12)
}

/// Build an exception response for the request in `b`.
pub fn exception_response(b: &Vec<u8>, unit_id: u8, code: u8, exc: u8) -> (r: Vec<u8>)
    requires
        b@.len() >= 4,
    ensures
        r@ == exception_spec(b@, unit_id, code, exc),
{
    let mut r: Vec<u8> = Vec::new();
    r.push(b[0]);
    r.push(b[1]);
    r.push(b[2]);
    r.push(b[3]);
    r.push(0);
    r.push(3);
    r.push(unit_id);
    r.push(((code as u16 + 128) % 256) as u8);
    r.push(exc);
    proof {
        assert(r@ =~= exception_spec(b@, unit_id, code, exc));
    }
    r
}

fn read_reply(b: &Vec<u8>, data: &Vec<u8>) -> (r: Vec<u8>)
    requires
        b@.len() >= 8,
        data@.len() <= 250,
    ensures
        r@ == read_reply_spec(b@, data@),
{
    let mut r: Vec<u8> = Vec::new();
    r.push(b[0]);
    r.push(b[1]);
    r.push(b[2]);
    r.push(b[3]);
    r.push(0);
    r.push(data.len() as u8 + 3);
    r.push(b[6]);
    r.push(b[7]);
    r.push(data.len() as u8);
    let mut i: usize = 0;
    while i < data.len()
        invariant
            b@.len() >= 8,
            data@.len() <= 250,
            i <= data@.len(),
            r@ == read_reply_spec(b@, data@).take(9 + i),
        decreases data@.len() - i,
    {
        r.push(data[i]);
        proof {
            assert(r@ =~= read_reply_spec(b@, data@).take(9 + i + 1));
        }
        i += 1;
    }
    proof {
        assert(read_reply_spec(b@, data@).take(9 + data@.len() as int) =~= read_reply_spec(
            b@,
            data@,
        ));
    }
    r
}

fn write_reply(b: &Vec<u8>) -> (r: Vec<u8>)
    requires
        b@.len() >= 12,
    ensures
        r@ == write_reply_spec(b@),
{
    let mut r: Vec<u8> = Vec::new();
    r.push(b[0]);
    r.push(b[1]);
    r.push(b[2]);
    r.push(b[3]);
    r.push(0);
    r.push(6);
    r.push(b[6]);
    r.push(b[7]);
    r.push(b[8]);
    r.push(b[9]);
    r.push(b[10]);
    r.push(b[11]);
    proof {
        assert(r@ =~= write_reply_spec(b@));
    }
    r
}

/// The response owed to an accepted read-class request: the region contents
/// when the range exists, and an illegal-data-address exception otherwise.
pub open spec fn read_response_spec<C: Context>(
    ctx: &C,
    unit_id: u8,
    req: ParsedRequest,
    b: Seq<u8>,
) -> Seq<u8> {
    match req.func {
        Func::ReadCoils => if req.addr as int + req.count as int <= ctx.coils().len() {
            read_reply_spec(
                b,
                pack_bits(ctx.coils().subrange(req.addr as int, req.addr as int + req.count as int)),
            )
        } else {
            exception_spec(b, unit_id, FC_READ_COILS, EXC_ILLEGAL_DATA_ADDRESS)
        },
        Func::ReadDiscretes => if req.addr as int + req.count as int <= ctx.discretes().len() {
            read_reply_spec(
                b,
                pack_bits(
                    ctx.discretes().subrange(req.addr as int, req.addr as int + req.count as int),
                ),
            )
        } else {
            exception_spec(b, unit_id, FC_READ_DISCRETES, EXC_ILLEGAL_DATA_ADDRESS)
        },
        Func::ReadHoldings => if req.addr as int + req.count as int <= ctx.holdings().len() {
            read_reply_spec(
                b,
                words_to_bytes(
                    ctx.holdings().subrange(req.addr as int, req.addr as int + req.count as int),
                ),
            )
        } else {
            exception_spec(b, unit_id, FC_READ_HOLDINGS, EXC_ILLEGAL_DATA_ADDRESS)
        },
        Func::ReadInputs => if req.addr as int + req.count as int <= ctx.inputs().len() {
            read_reply_spec(
                b,
                words_to_bytes(
                    ctx.inputs().subrange(req.addr as int, req.addr as int + req.count as int),
                ),
            )
        } else {
            exception_spec(b, unit_id, FC_READ_INPUTS, EXC_ILLEGAL_DATA_ADDRESS)
        },
        _ => Seq::empty(),
    }
}

/// Dispatch an accepted read-class request and build its response.
pub fn execute_read<C: Context>(ctx: &C, unit_id: u8, req: &ParsedRequest, b: &Vec<u8>) -> (resp:
    Vec<u8>)
    requires
        parse_spec(unit_id, b@) == ParseResult::Accept(*req),
        is_read_spec(req.func),
    ensures
        resp@ == read_response_spec(ctx, unit_id, *req, b@),
{
    match req.func {
        Func::ReadCoils => match ctx.get_coils(req.addr, req.count) {
            Ok(vals) => {
                let data = pack_bits_exec(&vals);
                read_reply(b, &data)
            },
            Err(_) => exception_response(b, unit_id, FC_READ_COILS, EXC_ILLEGAL_DATA_ADDRESS),
        },
        Func::ReadDiscretes => match ctx.get_discretes(req.addr, req.count) {
            Ok(vals) => {
                let data = pack_bits_exec(&vals);
                read_reply(b, &data)
            },
            Err(_) => exception_response(b, unit_id, FC_READ_DISCRETES, EXC_ILLEGAL_DATA_ADDRESS),
        },
        Func::ReadHoldings => match ctx.get_holdings(req.addr, req.count) {
            Ok(vals) => {
                let data = words_to_bytes_exec(&vals);
                read_reply(b, &data)
            },
            Err(_) => exception_response(b, unit_id, FC_READ_HOLDINGS, EXC_ILLEGAL_DATA_ADDRESS),
        },
        Func::ReadInputs => match ctx.get_inputs(req.addr, req.count) {
            Ok(vals) => {
                let data = words_to_bytes_exec(&vals);
                read_reply(b, &data)
            },
            Err(_) => exception_response(b, unit_id, FC_READ_INPUTS, EXC_ILLEGAL_DATA_ADDRESS),
        },
        _ => vstd::pervasive::unreached(),
    }
}

/// Whether a write-class request's payload is cut off before its declared
/// data: the frame is broken and dispatch aborts.
pub open spec fn write_frame_short(req: ParsedRequest, b: Seq<u8>) -> bool {
    match req.func {
        Func::WriteCoil | Func::WriteHolding => b.len() < 12,
        Func::WriteCoils | Func::WriteHoldings => 13 + b[12] as int > b.len(),
        _ => false,
    }
}

/// Whether the data fields of a write-class request are themselves valid.
pub open spec fn write_data_ok(req: ParsedRequest, b: Seq<u8>) -> bool {
    match req.func {
        Func::WriteCoil => be16(b, 10) == 0xFF00 || be16(b, 10) == 0,
        Func::WriteHolding => true,
        Func::WriteCoils => (req.count as int + 7) / 8 <= b[12] as int,
        Func::WriteHoldings => b[12] as int % 2 == 0,
        _ => false,
    }
}

/// The coil values a write-class request carries.
pub open spec fn coil_values(req: ParsedRequest, b: Seq<u8>) -> Seq<bool> {
    match req.func {
        Func::WriteCoil => seq![be16(b, 10) == 0xFF00],
        Func::WriteCoils => unpack_bits(b.subrange(13, 13 + b[12] as int), req.count as int),
        _ => Seq::empty(),
    }
}

/// The holding-register values a write-class request carries.
pub open spec fn word_values(req: ParsedRequest, b: Seq<u8>) -> Seq<u16> {
    match req.func {
        Func::WriteHolding => seq![(be16(b, 10)) as u16],
        Func::WriteHoldings => bytes_to_words(b.subrange(13, 13 + b[12] as int)),
        _ => Seq::empty(),
    }
}

/// The exception code a failed write is answered with: illegal data value for
/// a bad single-coil value, illegal data address otherwise.
pub open spec fn write_exc(req: ParsedRequest, b: Seq<u8>) -> u8 {
    if req.func is WriteCoil && !write_data_ok(req, b) {
        EXC_ILLEGAL_DATA_VALUE
    } else {
        EXC_ILLEGAL_DATA_ADDRESS
    }
}

/// Whether a write-class request succeeds against regions of the given sizes.
pub open spec fn write_succeeds(
    coils: Seq<bool>,
    holdings: Seq<u16>,
    req: ParsedRequest,
    b: Seq<u8>,
) -> bool {
    write_data_ok(req, b) && (match req.func {
        Func::WriteCoil | Func::WriteCoils => req.addr as int + coil_values(req, b).len()
            <= coils.len(),
        Func::WriteHolding | Func::WriteHoldings => req.addr as int + word_values(req, b).len()
            <= holdings.len(),
        _ => false,
    })
}

/// The coil region after a write-class request.
pub open spec fn coils_after(coils: Seq<bool>, req: ParsedRequest, b: Seq<u8>) -> Seq<bool> {
    if (req.func is WriteCoil || req.func is WriteCoils) && write_data_ok(req, b) && req.addr as int
        + coil_values(req, b).len() <= coils.len() {
        overlay(coils, req.addr as int, coil_values(req, b))
    } else {
        coils
    }
}

/// The holding-register region after a write-class request.
pub open spec fn holdings_after(holdings: Seq<u16>, req: ParsedRequest, b: Seq<u8>) -> Seq<u16> {
    if (req.func is WriteHolding || req.func is WriteHoldings) && write_data_ok(req, b)
        && req.addr as int + word_values(req, b).len() <= holdings.len() {
        overlay(holdings, req.addr as int, word_values(req, b))
    } else {
        holdings
    }
}

/// The reply owed to an accepted write-class request that wants one: an echo
/// on success, an exception response on failure.
pub open spec fn write_response_bytes(
    coils: Seq<bool>,
    holdings: Seq<u16>,
    unit_id: u8,
    req: ParsedRequest,
    b: Seq<u8>,
) -> Seq<u8> {
    if write_succeeds(coils, holdings, req, b) {
        write_reply_spec(b)
    } else {
        exception_spec(b, unit_id, code_of(req.func), write_exc(req, b))
    }
}

/// Dispatch an accepted write-class request against the context and build its
/// response. The context is mutated exactly when the request is valid and in
/// bounds; a reply is returned exactly when one is required (never for a
/// broadcast).
pub fn execute_write<C: Context>(
    ctx: &mut C,
    unit_id: u8,
    req: &ParsedRequest,
    b: &Vec<u8>,
) -> (r: Result<Option<Vec<u8>>, ModbusError>)
    requires
        parse_spec(unit_id, b@) == ParseResult::Accept(*req),
        !is_read_spec(req.func),
    ensures
        final(ctx).discretes() == old(ctx).discretes(),
        final(ctx).inputs() == old(ctx).inputs(),
        r is Err <==> write_frame_short(*req, b@),
        r matches Err(e) ==> e == ModbusError::FrameBroken
            && final(ctx).coils() == old(ctx).coils()
            && final(ctx).holdings() == old(ctx).holdings(),
        r is Ok ==> final(ctx).coils() == coils_after(old(ctx).coils(), *req, b@)
            && final(ctx).holdings() == holdings_after(old(ctx).holdings(), *req, b@),
        r matches Ok(resp) ==> (resp is Some <==> req.response_required),
        r matches Ok(Some(v)) ==> v@ == write_response_bytes(
            old(ctx).coils(),
            old(ctx).holdings(),
            unit_id,
            *req,
            b@,
        ),
{
    match req.func {
        Func::WriteCoil => {
            if b.len() < 12 {
                return Err(ModbusError::FrameBroken);
            }
            let v = be16_at(b, 10);
            if v != 0xFF00 && v != 0 {
                if req.response_required {
                    Ok(
                        Some(
                            exception_response(b, unit_id, FC_WRITE_COIL, EXC_ILLEGAL_DATA_VALUE),
                        ),
                    )
                } else {
                    Ok(None)
                }
            } else {
                let mut vals: Vec<bool> = Vec::new();
                vals.push(v == 0xFF00);
                proof {
                    assert(vals@ =~= coil_values(*req, b@));
                }
                let ok = ctx.set_coils(req.addr, &vals);
                match ok {
                    Ok(_) => if req.response_required {
                        Ok(Some(write_reply(b)))
                    } else {
                        Ok(None)
                    },
                    Err(_) => if req.response_required {
                        Ok(
                            Some(
                                exception_response(
                                    b,
                                    unit_id,
                                    FC_WRITE_COIL,
                                    EXC_ILLEGAL_DATA_ADDRESS,
                                ),
                            ),
                        )
                    } else {
                        Ok(None)
                    },
                }
            }
        },
        Func::WriteHolding => {
            if b.len() < 12 {
                return Err(ModbusError::FrameBroken);
            }
            let v = be16_at(b, 10);
            let mut vals: Vec<u16> = Vec::new();
            vals.push(v);
            proof {
                assert(vals@ =~= word_values(*req, b@));
            }
            let ok = ctx.set_holdings(req.addr, &vals);
            match ok {
                Ok(_) => if req.response_required {
                    Ok(Some(write_reply(b)))
                } else {
                    Ok(None)
                },
                Err(_) => if req.response_required {
                    Ok(
                        Some(
                            exception_response(
                                b,
                                unit_id,
                                FC_WRITE_HOLDING,
                                EXC_ILLEGAL_DATA_ADDRESS,
                            ),
                        ),
                    )
                } else {
                    Ok(None)
                },
            }
        },
        Func::WriteCoils => {
            let bytes = b[12] as usize;
            if bytes > b.len() - 13 {
                return Err(ModbusError::FrameBroken);
            }
            let needed = (req.count as usize + 7) / 8;
            if needed > bytes {
                if req.response_required {
                    Ok(
                        Some(
                            exception_response(
                                b,
                                unit_id,
                                FC_WRITE_COILS,
                                EXC_ILLEGAL_DATA_ADDRESS,
                            ),
                        ),
                    )
                } else {
                    Ok(None)
                }
            } else {
                let data = sub_vec(b, 13, 13 + bytes);
                let vals = unpack_bits_exec(&data, req.count);
                proof {
                    assert(vals@ =~= coil_values(*req, b@));
                }
                let ok = ctx.set_coils(req.addr, &vals);
                match ok {
                    Ok(_) => if req.response_required {
                        Ok(Some(write_reply(b)))
                    } else {
                        Ok(None)
                    },
                    Err(_) => if req.response_required {
                        Ok(
                            Some(
                                exception_response(
                                    b,
                                    unit_id,
                                    FC_WRITE_COILS,
                                    EXC_ILLEGAL_DATA_ADDRESS,
                                ),
                            ),
                        )
                    } else {
                        Ok(None)
                    },
                }
            }
        },
        Func::WriteHoldings => {
            let bytes = b[12] as usize;
            if bytes > b.len() - 13 {
                return Err(ModbusError::FrameBroken);
            }
            if bytes % 2 == 1 {
                if req.response_required {
                    Ok(
                        Some(
                            exception_response(
                                b,
                                unit_id,
                                FC_WRITE_HOLDINGS,
                                EXC_ILLEGAL_DATA_ADDRESS,
                            ),
                        ),
                    )
                } else {
                    Ok(None)
                }
            } else {
                let data = sub_vec(b, 13, 13 + bytes);
                let vals = words_from_bytes_exec(&data);
                proof {
                    assert(vals@ =~= word_values(*req, b@));
                }
                let ok = ctx.set_holdings(req.addr, &vals);
                match ok {
                    Ok(_) => if req.response_required {
                        Ok(Some(write_reply(b)))
                    } else {
                        Ok(None)
                    },
                    Err(_) => if req.response_required {
                        Ok(
                            Some(
                                exception_response(
                                    b,
                                    unit_id,
                                    FC_WRITE_HOLDINGS,
                                    EXC_ILLEGAL_DATA_ADDRESS,
                                ),
                            ),
                        )
                    } else {
                        Ok(None)
                    },
                }
            }
        },
        _ => vstd::pervasive::unreached(),
    }
}


/// Law: a frame with a truncated header, a nonzero protocol id, or a length
/// field outside 6..=250 is malformed; it is dropped with a protocol error,
/// answered by nothing, and never dispatched.
pub proof fn lemma_malformed_header_broken(unit_id: u8, b: Seq<u8>)
    requires
        b.len() < 7 || be16(b, 2) != 0 || be16(b, 4) < 6 || be16(b, 4) > 250,
    ensures
        parse_spec(unit_id, b) is Broken,
{
}

/// Round-trip law for read-class requests: every reply echoes the request's
/// transaction id bytes unchanged and carries the unit id the request
/// addressed.
pub proof fn lemma_read_response_echo<C: Context>(
    ctx: &C,
    unit_id: u8,
    req: ParsedRequest,
    b: Seq<u8>,
)
    requires
        parse_spec(unit_id, b) == ParseResult::Accept(req),
        is_read_spec(req.func),
    ensures
        read_response_spec(ctx, unit_id, req, b).len() >= 9,
        read_response_spec(ctx, unit_id, req, b)[0] == b[0],
        read_response_spec(ctx, unit_id, req, b)[1] == b[1],
        read_response_spec(ctx, unit_id, req, b)[6] == unit_id,
        b[6] == unit_id,
{
}

/// Round-trip law for write-class requests that are owed a reply: the reply
/// echoes the request's transaction id bytes unchanged and carries the unit
/// id the request addressed.
pub proof fn lemma_write_response_echo(
    coils: Seq<bool>,
    holdings: Seq<u16>,
    unit_id: u8,
    req: ParsedRequest,
    b: Seq<u8>,
)
    requires
        parse_spec(unit_id, b) == ParseResult::Accept(req),
        !is_read_spec(req.func),
        !write_frame_short(req, b),
        req.response_required,
    ensures
        write_response_bytes(coils, holdings, unit_id, req, b).len() >= 9,
        write_response_bytes(coils, holdings, unit_id, req, b)[0] == b[0],
        write_response_bytes(coils, holdings, unit_id, req, b)[1] == b[1],
        write_response_bytes(coils, holdings, unit_id, req, b)[6] == unit_id,
        b[6] == unit_id,
{
}

} // verus!
