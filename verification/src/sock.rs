//! The socket adapter: trusted wrappers around the `smoltcp` TCP socket.
//!
//! The socket collection is opaque to the verifier; what the contracts need
//! of it is named by uninterpreted spec functions: whether a handle refers to
//! a TCP socket of the set, that socket's state machine state, and whether it
//! has buffered receive data. Each wrapper states over those names what the
//! wrapped `smoltcp` operation does, as its source shows it.

use vstd::prelude::*;

use smoltcp::iface::SocketHandle;
use smoltcp::iface::SocketSet;
use smoltcp::socket::tcp::SocketBuffer;

verus! {

#[verifier::external_type_specification]
#[verifier::external_body]
pub struct ExSocketSet<'a>(SocketSet<'a>);

#[verifier::external_type_specification]
#[verifier::external_body]
pub struct ExSocketHandle(SocketHandle);

/// The ring buffer behind a socket's `SocketBuffer`, declared opaque.
#[verifier::external_type_specification]
#[verifier::external_body]
#[verifier::reject_recursive_types(T)]
pub struct ExRingBuffer<'a, T: 'a>(smoltcp::storage::RingBuffer<'a, T>);

/// The TCP state machine states, as reported by the socket.
#[derive(Clone, Copy, Debug, PartialEq, Eq, Structural)]
pub enum SockState {
    Closed,
    Listen,
    SynSent,
    SynReceived,
    Established,
    FinWait1,
    FinWait2,
    CloseWait,
    Closing,
    LastAck,
    TimeWait,
}

/// Whether the handle refers to a TCP socket owned by the set.
pub uninterp spec fn tcp_socket_at(s: SocketSet, h: SocketHandle) -> bool;

/// The TCP state of the socket at `h`.
pub uninterp spec fn tcp_state(s: SocketSet, h: SocketHandle) -> SockState;

/// Whether the socket at `h` has buffered receive data.
pub uninterp spec fn tcp_can_recv(s: SocketSet, h: SocketHandle) -> bool;

/// Whether the set can take one more socket without panicking.
pub uninterp spec fn set_has_room(s: SocketSet) -> bool;

/// The capacity of a socket ring buffer.
pub uninterp spec fn buffer_capacity(b: SocketBuffer) -> int;

/// Whether a socket in state `st` is open: it processes incoming or outgoing
/// packets.
pub open spec fn is_open_state(st: SockState) -> bool {
    !(st is Closed || st is TimeWait)
}

/// The state after an active close, per the TCP state machine.
pub open spec fn close_state(st: SockState) -> SockState {
    match st {
        SockState::Listen => SockState::Closed,
        SockState::SynSent => SockState::Closed,
        SockState::SynReceived => SockState::FinWait1,
        SockState::Established => SockState::FinWait1,
        SockState::CloseWait => SockState::LastAck,
        _ => st,
    }
}

/// A listen failure, mirroring the socket's own cases.
#[derive(Clone, Copy, Debug, PartialEq, Eq, Structural)]
pub enum ListenError {
    /// The socket is already open.
    InvalidState,
    /// The port is zero.
    Unaddressable,
}

/// A receive failure, mirroring the socket's own cases.
#[derive(Clone, Copy, Debug, PartialEq, Eq, Structural)]
pub enum RecvError {
    /// The receive half is not open.
    InvalidState,
    /// The remote endpoint closed its half of the connection.
    Finished,
}

/// A send failure.
#[derive(Clone, Copy, Debug, PartialEq, Eq, Structural)]
pub enum SendError {
    /// The transmit half is not open (the socket's own failure case).
    InvalidState,
    /// The transmit buffer accepted only part of the response (reported by
    /// the server, never by the socket itself).
    Truncated,
}

/// Relies on `RingBuffer::capacity`: the length of the buffer's storage.
#[verifier::external_body]
pub(crate) fn sock_buffer_capacity(b: &SocketBuffer) -> (r: usize)
    ensures
        r as int == buffer_capacity(*b),
{
    b.capacity()
}

/// Relies on `tcp::Socket::new`, `tcp::Socket::set_timeout` and
/// `SocketSet::add`: registers a fresh socket in the Closed state, carrying
/// the given buffers as handed and an idle timeout, and returns its handle. `add` panics on a full
/// fixed-capacity set, `Socket::new` on a receive buffer over 1 GiB, and
/// `Duration::from_secs` overflows when the seconds do not fit microseconds
/// in a `u64`.
#[verifier::external_body]
pub(crate) fn sock_add<'a>(
    s: &mut SocketSet<'a>,
    rx_buffer: SocketBuffer<'a>,
    tx_buffer: SocketBuffer<'a>,
    timeout_secs: u64,
) -> (h: SocketHandle)
    requires
        set_has_room(*old(s)),
        buffer_capacity(rx_buffer) <= 0x4000_0000,
        timeout_secs <= 18_446_744_073_709,
    ensures
        tcp_socket_at(*final(s), h),
        tcp_state(*final(s), h) is Closed,
        forall|h2: SocketHandle| tcp_socket_at(*old(s), h2) ==> tcp_socket_at(*final(s), h2),
{
    let mut socket = smoltcp::socket::tcp::Socket::new(rx_buffer, tx_buffer);
    socket.set_timeout(Some(smoltcp::time::Duration::from_secs(timeout_secs)));
    s.add(socket)
}

/// Relies on `tcp::Socket::is_open` via `SocketSet::get`: open in every state
/// but Closed and TimeWait.
#[verifier::external_body]
pub(crate) fn sock_is_open(s: &SocketSet, h: SocketHandle) -> (r:
    bool)
    requires
        tcp_socket_at(*s, h),
    ensures
        r == is_open_state(tcp_state(*s, h)),
{
    s.get::<smoltcp::socket::tcp::Socket>(h).is_open()
}

/// Relies on `tcp::Socket::is_listening` via `SocketSet::get`: true exactly
/// in the Listen state.
#[verifier::external_body]
pub(crate) fn sock_is_listening(
    s: &SocketSet,
    h: SocketHandle,
) -> (r: bool)
    requires
        tcp_socket_at(*s, h),
    ensures
        r == (tcp_state(*s, h) is Listen),
{
    s.get::<smoltcp::socket::tcp::Socket>(h).is_listening()
}

/// Relies on `tcp::Socket::state` via `SocketSet::get`: reports the TCP state
/// machine state; used only to observe the passive-close CloseWait state.
#[verifier::external_body]
pub(crate) fn sock_in_close_wait(
    s: &SocketSet,
    h: SocketHandle,
) -> (r: bool)
    requires
        tcp_socket_at(*s, h),
    ensures
        r == (tcp_state(*s, h) is CloseWait),
{
    matches!(s.get::<smoltcp::socket::tcp::Socket>(h).state(), smoltcp::socket::tcp::State::CloseWait)
}

/// Relies on `tcp::Socket::can_recv` via `SocketSet::get`: true exactly when
/// the receive buffer is not empty.
#[verifier::external_body]
pub(crate) fn sock_can_recv(s: &SocketSet, h: SocketHandle) -> (r:
    bool)
    requires
        tcp_socket_at(*s, h),
    ensures
        r == tcp_can_recv(*s, h),
{
    s.get::<smoltcp::socket::tcp::Socket>(h).can_recv()
}

/// Relies on `tcp::Socket::listen` via `SocketSet::get_mut`: fails with
/// Unaddressable on port zero and with InvalidState when the socket is open
/// outside Listen; otherwise it resets the socket (emptying its buffers) and
/// enters Listen. Re-listening on the same endpoint is a no-op that keeps the
/// Listen state. On failure nothing is changed; sockets are neither added nor
/// removed.
#[verifier::external_body]
pub(crate) fn sock_listen(
    s: &mut SocketSet,
    h: SocketHandle,
    port: u16,
) -> (r: Result<(), ListenError>)
    requires
        tcp_socket_at(*old(s), h),
    ensures
        forall|h2: SocketHandle| tcp_socket_at(*final(s), h2) == tcp_socket_at(*old(s), h2),
        set_has_room(*final(s)) == set_has_room(*old(s)),
        port == 0 ==> r is Err && r->Err_0 is Unaddressable,
        r is Err ==> *final(s) == *old(s),
        r is Ok ==> tcp_state(*final(s), h) is Listen && !tcp_can_recv(*final(s), h),
        port != 0 && !is_open_state(tcp_state(*old(s), h)) ==> r is Ok,
{
    let sock = s.get_mut::<smoltcp::socket::tcp::Socket>(h);
    match sock.listen(port) {
        Ok(()) => Ok(()),
        Err(smoltcp::socket::tcp::ListenError::InvalidState) => Err(ListenError::InvalidState),
        Err(smoltcp::socket::tcp::ListenError::Unaddressable) => Err(ListenError::Unaddressable),
    }
}

/// Relies on `tcp::Socket::close` via `SocketSet::get_mut`: a TCP state
/// transition only; buffered receive data stays; sockets are neither added
/// nor removed.
#[verifier::external_body]
pub(crate) fn sock_close(s: &mut SocketSet, h: SocketHandle)
    requires
        tcp_socket_at(*old(s), h),
    ensures
        forall|h2: SocketHandle| tcp_socket_at(*final(s), h2) == tcp_socket_at(*old(s), h2),
        set_has_room(*final(s)) == set_has_room(*old(s)),
        tcp_state(*final(s), h) == close_state(tcp_state(*old(s), h)),
        tcp_can_recv(*final(s), h) == tcp_can_recv(*old(s), h),
{
    s.get_mut::<smoltcp::socket::tcp::Socket>(h).close();
}

/// Relies on `tcp::Socket::recv_slice` via `SocketSet::get_mut`: dequeues up
/// to `max` buffered bytes; fails only when the receive half is not open
/// (Finished after a remote FIN, InvalidState otherwise), leaving everything
/// unchanged, and succeeds whenever receive data is buffered. The TCP state
/// is not changed; sockets are neither added nor removed.
#[verifier::external_body]
pub(crate) fn sock_recv(
    s: &mut SocketSet,
    h: SocketHandle,
    max: usize,
) -> (r: Result<Vec<u8>, RecvError>)
    requires
        tcp_socket_at(*old(s), h),
    ensures
        forall|h2: SocketHandle| tcp_socket_at(*final(s), h2) == tcp_socket_at(*old(s), h2),
        set_has_room(*final(s)) == set_has_room(*old(s)),
        tcp_state(*final(s), h) == tcp_state(*old(s), h),
        r matches Ok(v) ==> v@.len() <= max,
        tcp_can_recv(*old(s), h) ==> r is Ok,
        r is Err ==> *final(s) == *old(s),
{
    let mut buf = std::vec![0u8; max];
    match s.get_mut::<smoltcp::socket::tcp::Socket>(h).recv_slice(&mut buf) {
        Ok(n) => {
            buf.truncate(n);
            Ok(buf)
        },
        Err(smoltcp::socket::tcp::RecvError::InvalidState) => Err(RecvError::InvalidState),
        Err(smoltcp::socket::tcp::RecvError::Finished) => Err(RecvError::Finished),
    }
}

/// Relies on `tcp::Socket::send_slice` via `SocketSet::get_mut`: enqueues a
/// prefix of `data`, limited by free transmit-buffer space, and reports how
/// many bytes were taken; fails only when the transmit half is not open,
/// leaving everything unchanged. The TCP state and buffered receive data are
/// not changed; sockets are neither added nor removed.
#[verifier::external_body]
pub(crate) fn sock_send(
    s: &mut SocketSet,
    h: SocketHandle,
    data: &Vec<u8>,
) -> (r: Result<usize, SendError>)
    requires
        tcp_socket_at(*old(s), h),
    ensures
        forall|h2: SocketHandle| tcp_socket_at(*final(s), h2) == tcp_socket_at(*old(s), h2),
        set_has_room(*final(s)) == set_has_room(*old(s)),
        tcp_state(*final(s), h) == tcp_state(*old(s), h),
        tcp_can_recv(*final(s), h) == tcp_can_recv(*old(s), h),
        r matches Ok(n) ==> n <= data@.len(),
        r is Err ==> *final(s) == *old(s),
{
    match s.get_mut::<smoltcp::socket::tcp::Socket>(h).send_slice(data.as_slice()) {
        Ok(n) => Ok(n),
        Err(smoltcp::socket::tcp::SendError::InvalidState) => Err(SendError::InvalidState),
    }
}

} // verus!
