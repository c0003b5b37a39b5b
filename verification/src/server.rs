//! The Modbus server: one socket handle, one context, one unit of work per
//! poll call.

use vstd::prelude::*;

use smoltcp::iface::SocketHandle;
use smoltcp::iface::SocketSet;
use smoltcp::socket::tcp::SocketBuffer;

use crate::PORT;
use crate::context::Context;
use crate::frame::ModbusError;
use crate::frame::ParseResult;
use crate::frame::be16;
use crate::frame::be16_at;
use crate::frame::coils_after;
use crate::frame::exception_response;
use crate::frame::exception_spec;
use crate::frame::execute_read;
use crate::frame::execute_write;
use crate::frame::holdings_after;
use crate::frame::is_read_func;
use crate::frame::is_read_spec;
use crate::frame::parse_request;
use crate::frame::parse_spec;
use crate::frame::read_response_spec;
use crate::frame::write_frame_short;
use crate::frame::write_response_bytes;
use crate::sock::ListenError;
use crate::sock::RecvError;
use crate::sock::SendError;
use crate::sock::buffer_capacity;
use crate::sock::is_open_state;
use crate::sock::set_has_room;
use crate::sock::sock_add;
use crate::sock::sock_buffer_capacity;
use crate::sock::sock_can_recv;
use crate::sock::sock_close;
use crate::sock::sock_in_close_wait;
use crate::sock::sock_is_listening;
use crate::sock::sock_is_open;
use crate::sock::sock_listen;
use crate::sock::sock_recv;
use crate::sock::sock_send;
use crate::sock::tcp_can_recv;
use crate::sock::tcp_socket_at;
use crate::sock::tcp_state;

verus! {

/// Error type.
#[derive(Clone, Copy, Debug, PartialEq, Eq, Structural)]
pub enum Error {
    /// Receive buffer too small.
    RxBufferTooSmall,
    /// Transmit buffer too small.
    TxBufferTooSmall,
    /// Socket receive error.
    Receive(RecvError),
    /// Socket transmit error.
    Send(SendError),
    /// Socket listen error.
    Listen(ListenError),
    /// Modbus protocol error.
    Modbus(ModbusError),
}

/// Smallest accepted socket buffer capacity: a 7-byte framing header plus the
/// largest function-code payload.
pub const MIN_BUFFER: usize = 260;

/// The receive staging buffer: the largest function-code payload plus header,
/// zero-padded.
pub const FRAME_BUF_LEN: usize = 256;

/// The unit id this server answers to.
const SERVER_UNIT_ID: u8 = 1;

/// Idle-connection timeout handed to the socket, in seconds.
const TIMEOUT_SECS: u64 = 10;

/// Modbus server: owns its context and a handle to a socket in an externally
/// owned socket set.
pub struct Server<CTX: Context> {
    handle: SocketHandle,
    context: CTX,
}

fn pad_frame(data: &Vec<u8>) -> (r: Vec<u8>)
    requires
        data@.len() <= FRAME_BUF_LEN,
    ensures
        r@ == data@ + Seq::new((FRAME_BUF_LEN - data@.len()) as nat, |i: int| 0u8),
        r@.len() == FRAME_BUF_LEN,
{
    let mut r: Vec<u8> = Vec::new();
    let mut i: usize = 0;
    while i < data.len()
        invariant
            data@.len() <= FRAME_BUF_LEN,
            i <= data@.len(),
            r@ == data@.subrange(0, i as int),
        decreases data@.len() - i,
    {
        r.push(data[i]);
        proof {
            assert(r@ =~= data@.subrange(0, i + 1));
        }
        i += 1;
    }
    while r.len() < FRAME_BUF_LEN
        invariant
            data@.len() <= r@.len() <= FRAME_BUF_LEN,
            r@.subrange(0, data@.len() as int) == data@,
            forall|j: int| data@.len() <= j < r@.len() ==> r@[j] == 0u8,
        decreases FRAME_BUF_LEN - r@.len(),
    {
        r.push(0);
    }
    proof {
        assert(r@ =~= data@ + Seq::new((FRAME_BUF_LEN - data@.len()) as nat, |i: int| 0u8));
    }
    r
}


/// A receive of `data`, zero-padded to the staging buffer's length, as the
/// codec sees it.
pub open spec fn padded(data: Seq<u8>) -> Seq<u8> {
    data + Seq::new((FRAME_BUF_LEN - data.len()) as nat, |i: int| 0u8)
}

/// Whether a non-empty receive is cut off: its framing header is incomplete,
/// or its declared length field promises more bytes than were received. Such
/// a receive is dropped with a protocol error before it is parsed.
pub open spec fn receive_truncated(data: Seq<u8>) -> bool {
    data.len() < 6 || 6 + be16(data, 4) > data.len()
}

/// Whether `b` parses to a request that enters the write-dispatch path.
pub open spec fn mutating_request(unit_id: u8, b: Seq<u8>) -> bool {
    parse_spec(unit_id, b) matches ParseResult::Accept(req) && !is_read_spec(req.func)
}

/// Whether `b` is dropped with a protocol error: malformed framing, or a
/// write-class payload cut off before its declared data.
pub open spec fn protocol_error(unit_id: u8, b: Seq<u8>) -> bool {
    parse_spec(unit_id, b) is Broken || (parse_spec(unit_id, b) matches ParseResult::Accept(req)
        && !is_read_spec(req.func) && write_frame_short(req, b))
}

/// The reply owed to `b` against context `ctx`, if any: none for a dropped or
/// ignored frame or a broadcast write, an exception response for a rejected
/// or failed request, a read or echo reply otherwise.
pub open spec fn reply_of<C: Context>(ctx: C, unit_id: u8, b: Seq<u8>) -> Option<Seq<u8>> {
    match parse_spec(unit_id, b) {
        ParseResult::Broken => None,
        ParseResult::Ignored => None,
        ParseResult::Reject { responding_to, exception } => Some(
            exception_spec(b, unit_id, responding_to, exception),
        ),
        ParseResult::Accept(req) => if is_read_spec(req.func) {
            Some(read_response_spec(&ctx, unit_id, req, b))
        } else if write_frame_short(req, b) {
            None
        } else if req.response_required {
            Some(write_response_bytes(ctx.coils(), ctx.holdings(), unit_id, req, b))
        } else {
            None
        },
    }
}

/// One receive's unit of work: check `data` is a complete frame, pad it to
/// the staging buffer, parse it, dispatch it against `ctx`, and return the
/// mutation flag and the reply to send, if one is owed. A zero-length receive
/// is a no-op: no parse, no dispatch, no reply. A truncated receive (header
/// incomplete, or declared length exceeding the bytes received) is dropped
/// with a protocol error, unanswered and undispatched. The flag is true
/// exactly when a write-class dispatch path was entered, whether or not the
/// write itself succeeded.
pub fn process_data<C: Context>(ctx: &mut C, unit_id: u8, data: &Vec<u8>) -> (r: Result<
    (bool, Option<Vec<u8>>),
    ModbusError,
>)
    requires
        data@.len() <= FRAME_BUF_LEN,
    ensures
        final(ctx).discretes() == old(ctx).discretes(),
        final(ctx).inputs() == old(ctx).inputs(),
        r is Err <==> data@.len() != 0 && (receive_truncated(data@) || protocol_error(
            unit_id,
            padded(data@),
        )),
        data@.len() == 0 ==> (r matches Ok(p) && p.0 == false && p.1 is None)
            && *final(ctx) == *old(ctx),
        (r matches Ok(p) && !p.0) ==> *final(ctx) == *old(ctx),
        r is Err ==> final(ctx).coils() == old(ctx).coils()
            && final(ctx).holdings() == old(ctx).holdings(),
        r matches Ok(p) ==> (data@.len() != 0 ==> p.0 == mutating_request(
            unit_id,
            padded(data@),
        )),
        parse_spec(unit_id, padded(data@)) matches ParseResult::Accept(req) ==> ((data@.len() != 0
            && r is Ok && !is_read_spec(req.func)) ==> (final(ctx).coils() == coils_after(
            old(ctx).coils(),
            req,
            padded(data@),
        ) && final(ctx).holdings() == holdings_after(old(ctx).holdings(), req, padded(data@)))),
        r matches Ok(p) ==> (data@.len() != 0 ==> ((p.1 is Some) == (reply_of(
            *old(ctx),
            unit_id,
            padded(data@),
        ) is Some))),
        r matches Ok(p) ==> (p.1 matches Some(v) ==> (data@.len() != 0 ==> (reply_of(
            *old(ctx),
            unit_id,
            padded(data@),
        ) matches Some(expected) && v@ == expected))),
{
    if data.len() == 0 {
        return Ok((false, None));
    }
    if data.len() < 6 {
        return Err(ModbusError::FrameBroken);
    }
    let declared = be16_at(data, 4);
    if data.len() - 6 < declared as usize {
        return Err(ModbusError::FrameBroken);
    }
    let buf = pad_frame(data);
    match parse_request(unit_id, &buf) {
        ParseResult::Broken => Err(ModbusError::FrameBroken),
        ParseResult::Ignored => Ok((false, None)),
        ParseResult::Reject { responding_to, exception } => {
            let resp = exception_response(&buf, unit_id, responding_to, exception);
            Ok((false, Some(resp)))
        },
        ParseResult::Accept(req) => {
            if is_read_func(req.func) {
                let resp = execute_read(&*ctx, unit_id, &req, &buf);
                Ok((false, Some(resp)))
            } else {
                match execute_write(ctx, unit_id, &req, &buf) {
                    Err(err) => Err(err),
                    Ok(reply) => Ok((true, reply)),
                }
            }
        },
    }
}

impl<CTX: Context> Server<CTX> {
    /// The handle of the socket this server drives.
    pub closed spec fn spec_handle(&self) -> SocketHandle {
        self.handle
    }

    /// The context this server owns.
    pub closed spec fn spec_context(&self) -> CTX {
        self.context
    }

    /// Creates a new server instance.
    ///
    /// Each buffer must hold at least `MIN_BUFFER` bytes; otherwise the
    /// corresponding error is returned and no socket is registered.
    pub fn new<'a>(
        sockets: &mut SocketSet<'a>,
        rx_buffer: SocketBuffer<'a>,
        tx_buffer: SocketBuffer<'a>,
        context: CTX,
    ) -> (r: Result<Self, Error>)
        requires
            set_has_room(*old(sockets)),
            buffer_capacity(rx_buffer) <= 0x4000_0000,
        ensures
            r is Err <==> buffer_capacity(rx_buffer) < MIN_BUFFER || buffer_capacity(tx_buffer)
                < MIN_BUFFER,
            r is Err ==> *final(sockets) == *old(sockets),
            buffer_capacity(rx_buffer) < MIN_BUFFER ==> (r matches Err(e) && e
                is RxBufferTooSmall),
            buffer_capacity(rx_buffer) >= MIN_BUFFER && buffer_capacity(tx_buffer) < MIN_BUFFER
                ==> (r matches Err(e) && e is TxBufferTooSmall),
            r matches Ok(srv) ==> tcp_socket_at(*final(sockets), srv.spec_handle()) && tcp_state(
                *final(sockets),
                srv.spec_handle(),
            ) is Closed && srv.spec_context() == context,
            r is Ok ==> forall|h2: SocketHandle| tcp_socket_at(*old(sockets), h2) ==> tcp_socket_at(*final(sockets), h2),
    {
        let rx_cap = sock_buffer_capacity(&rx_buffer);
        if rx_cap < MIN_BUFFER {
            return Err(Error::RxBufferTooSmall);
        }
        let tx_cap = sock_buffer_capacity(&tx_buffer);
        if tx_cap < MIN_BUFFER {
            return Err(Error::TxBufferTooSmall);
        }
        let handle = sock_add(sockets, rx_buffer, tx_buffer, TIMEOUT_SECS);
        Ok(Self { handle, context })
    }

    /// Process socket data.
    ///
    /// Returns `true` if the context was mutated: exactly when a write-class
    /// dispatch path was entered during this call. Each call performs at most
    /// one connection-state transition, one receive, one parse and dispatch,
    /// and one send; a reply the transmit buffer takes only part of is
    /// surfaced as a send error; every error leaves the server continuable.
    pub fn poll(&mut self, sockets: &mut SocketSet) -> (r: Result<bool, Error>)
        requires
            tcp_socket_at(*old(sockets), old(self).spec_handle()),
        ensures
            final(self).spec_handle() == old(self).spec_handle(),
            tcp_socket_at(*final(sockets), final(self).spec_handle()),
            set_has_room(*final(sockets)) == set_has_room(*old(sockets)),
            // the read-only regions are never touched
            final(self).spec_context().discretes() == old(self).spec_context().discretes(),
            final(self).spec_context().inputs() == old(self).spec_context().inputs(),
            // no mutation flag, no context change
            (r matches Ok(m) && !m) ==> final(self).spec_context() == old(self).spec_context(),
            // the flag can be true only when data was receivable at entry
            (r matches Ok(m) && m) ==> tcp_can_recv(*old(sockets), old(self).spec_handle()),
            // buffered receive data is always accepted, never a receive error
            tcp_can_recv(*old(sockets), old(self).spec_handle()) ==> !(r matches Err(e) && e
                is Receive),
            // a closed or timed-out socket is put back to listening
            !is_open_state(tcp_state(*old(sockets), old(self).spec_handle()))
                ==> (r matches Ok(m) && !m)
                    && tcp_state(*final(sockets), old(self).spec_handle()) is Listen
                    && *final(self) == *old(self),
            // polling an open, quiescent socket does nothing at all
            (is_open_state(tcp_state(*old(sockets), old(self).spec_handle()))
                && !(tcp_state(*old(sockets), old(self).spec_handle()) is CloseWait)
                && !tcp_can_recv(*old(sockets), old(self).spec_handle()))
                ==> (r matches Ok(m) && !m)
                    && *final(sockets) == *old(sockets)
                    && *final(self) == *old(self),
            // a passive close is answered with an active close, whatever else
            // the call goes on to do
            tcp_state(*old(sockets), old(self).spec_handle()) is CloseWait ==> tcp_state(
                *final(sockets),
                old(self).spec_handle(),
            ) is LastAck,
            (tcp_state(*old(sockets), old(self).spec_handle()) is CloseWait
                && !tcp_can_recv(*old(sockets), old(self).spec_handle()))
                ==> (r matches Ok(m) && !m)
                    && *final(self) == *old(self),
            // a listen failure changes nothing
            (r matches Err(e) && e is Listen)
                ==> *final(sockets) == *old(sockets) && *final(self) == *old(self),
            // a receive failure leaves the server untouched
            (r matches Err(e) && e is Receive) ==> *final(self) == *old(self),
            // configuration errors belong to construction alone
            r matches Err(e) ==> e is Listen || e is Receive || e is Send || e is Modbus,
            // a protocol error never reaches the context
            (r matches Err(e) && e is Modbus)
                ==> final(self).spec_context().coils() == old(self).spec_context().coils()
                    && final(self).spec_context().discretes() == old(self).spec_context().discretes()
                    && final(self).spec_context().inputs() == old(self).spec_context().inputs()
                    && final(self).spec_context().holdings() == old(self).spec_context().holdings(),
    {
        let mut ctx_mutated = false;

        if !sock_is_open(sockets, self.handle) {
            if !sock_is_listening(sockets, self.handle) {
                match sock_listen(sockets, self.handle, PORT) {
                    Ok(_) => {},
                    Err(err) => {
                        return Err(Error::Listen(err));
                    },
                }
            }
        }

        if sock_in_close_wait(sockets, self.handle) {
            sock_close(sockets, self.handle);
        }

        if sock_can_recv(sockets, self.handle) {
            let data = match sock_recv(sockets, self.handle, FRAME_BUF_LEN) {
                Ok(d) => d,
                Err(err) => {
                    return Err(Error::Receive(err));
                },
            };

            match process_data(&mut self.context, SERVER_UNIT_ID, &data) {
                Err(err) => {
                    return Err(Error::Modbus(err));
                },
                Ok((mutated, reply)) => {
                    ctx_mutated = mutated;
                    if let Some(resp) = reply {
                        match sock_send(sockets, self.handle, &resp) {
                            Ok(sent) => {
                                if sent < resp.len() {
                                    return Err(Error::Send(SendError::Truncated));
                                }
                            },
                            Err(err) => {
                                return Err(Error::Send(err));
                            },
                        }
                    }
                },
            }
        }

        Ok(ctx_mutated)
    }

    /// Modbus context.
    pub fn context(&self) -> (r: &CTX)
        ensures
            *r == self.spec_context(),
    {
        &self.context
    }

    /// Mutable Modbus context.
    pub fn context_mut(&mut self) -> (r: &mut CTX)
        ensures
            *r == old(self).spec_context(),
            final(self).spec_context() == *final(r),
            final(self).spec_handle() == old(self).spec_handle(),
    {
        &mut self.context
    }
}

} // verus!
