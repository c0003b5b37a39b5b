//! A Modbus TCP server driven by polling a `smoltcp` TCP socket.
//!
//! The server owns an application-defined register/coil storage (a
//! [`context::Context`]) and a handle into an externally owned socket set.
//! Each call to [`server::Server::poll`] performs at most one connection
//! state transition, one receive, one parse and dispatch, and one send.

use vstd::prelude::*;

pub mod context;
pub mod frame;
pub mod server;
pub mod sock;
pub mod storage;

verus! {

/// Default Modbus TCP port.
pub const PORT: u16 = 502;

} // verus!
