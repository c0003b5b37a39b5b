//! Tests for server construction and the polling loop.

use modbus_poll::server::Error;
use modbus_poll::server::Server;
use modbus_poll::server::process_data;
use modbus_poll::storage::Storage;
use smoltcp::iface::SocketSet;
use smoltcp::iface::SocketStorage;
use smoltcp::socket::tcp::SocketBuffer;

#[test]
fn create_instance() {
    let mut socket_storage = [SocketStorage::EMPTY; 8];
    let mut socketset = SocketSet::new(&mut socket_storage.as_mut_slice()[..]);
    let mut rx_buf = [0; 260];
    let rx = SocketBuffer::new(&mut rx_buf.as_mut_slice()[..]);
    let mut tx_buf = [0; 260];
    let tx = SocketBuffer::new(&mut tx_buf.as_mut_slice()[..]);

    let context = Storage::new();

    let mut server = Server::new(&mut socketset, rx, tx, context).unwrap();

    server.poll(&mut socketset).ok();
}

#[test]
#[should_panic]
fn buffer_too_small() {
    let mut socket_storage = [SocketStorage::EMPTY; 8];
    let mut socketset = SocketSet::new(&mut socket_storage.as_mut_slice()[..]);
    let mut rx_buf = [0; 259];
    let rx = SocketBuffer::new(&mut rx_buf.as_mut_slice()[..]);
    let mut tx_buf = [0; 260];
    let tx = SocketBuffer::new(&mut tx_buf.as_mut_slice()[..]);

    let context = Storage::new();

    let server = Server::new(&mut socketset, rx, tx, context).unwrap();
    drop(server);
}

#[test]
fn undersized_transmit_buffer_is_rejected() {
    let mut socket_storage = [SocketStorage::EMPTY; 8];
    let mut socketset = SocketSet::new(&mut socket_storage.as_mut_slice()[..]);
    let mut rx_buf = [0; 260];
    let rx = SocketBuffer::new(&mut rx_buf.as_mut_slice()[..]);
    let mut tx_buf = [0; 259];
    let tx = SocketBuffer::new(&mut tx_buf.as_mut_slice()[..]);

    let r = Server::new(&mut socketset, rx, tx, Storage::new());
    assert!(matches!(r, Err(Error::TxBufferTooSmall)));
    // no socket was registered
    assert_eq!(socketset.iter().count(), 0);
}

fn tcp_states(sockets: &SocketSet) -> Vec<smoltcp::socket::tcp::State> {
    sockets
        .iter()
        .map(|(_h, s)| match s {
            smoltcp::socket::Socket::Tcp(t) => t.state(),
            _ => panic!("unexpected socket kind"),
        })
        .collect()
}

#[test]
fn first_poll_starts_listening() {
    let mut socket_storage = [SocketStorage::EMPTY; 8];
    let mut socketset = SocketSet::new(&mut socket_storage.as_mut_slice()[..]);
    let mut rx_buf = [0; 260];
    let rx = SocketBuffer::new(&mut rx_buf.as_mut_slice()[..]);
    let mut tx_buf = [0; 260];
    let tx = SocketBuffer::new(&mut tx_buf.as_mut_slice()[..]);

    let mut server = Server::new(&mut socketset, rx, tx, Storage::new()).unwrap();

    // the socket begins neither open nor listening
    assert_eq!(
        tcp_states(&socketset),
        vec![smoltcp::socket::tcp::State::Closed]
    );

    // the first poll issues the listen; nothing was received, nothing mutated
    assert_eq!(server.poll(&mut socketset), Ok(false));
    assert_eq!(
        tcp_states(&socketset),
        vec![smoltcp::socket::tcp::State::Listen]
    );
}

#[test]
fn idle_polling_is_idempotent() {
    let mut socket_storage = [SocketStorage::EMPTY; 8];
    let mut socketset = SocketSet::new(&mut socket_storage.as_mut_slice()[..]);
    let mut rx_buf = [0; 260];
    let rx = SocketBuffer::new(&mut rx_buf.as_mut_slice()[..]);
    let mut tx_buf = [0; 260];
    let tx = SocketBuffer::new(&mut tx_buf.as_mut_slice()[..]);

    let mut server = Server::new(&mut socketset, rx, tx, Storage::new()).unwrap();

    for _ in 0..100 {
        assert_eq!(server.poll(&mut socketset), Ok(false));
        assert_eq!(
            tcp_states(&socketset),
            vec![smoltcp::socket::tcp::State::Listen]
        );
    }
    // the context was never touched
    assert_eq!(server.context().holdings[0], 0);
}

#[test]
fn context_accessors_reach_the_storage() {
    let mut socket_storage = [SocketStorage::EMPTY; 8];
    let mut socketset = SocketSet::new(&mut socket_storage.as_mut_slice()[..]);
    let mut rx_buf = [0; 260];
    let rx = SocketBuffer::new(&mut rx_buf.as_mut_slice()[..]);
    let mut tx_buf = [0; 260];
    let tx = SocketBuffer::new(&mut tx_buf.as_mut_slice()[..]);

    let mut server = Server::new(&mut socketset, rx, tx, Storage::new()).unwrap();
    server.context_mut().holdings[5] = 77;
    assert_eq!(server.context().holdings[5], 77);
}

#[test]
fn zero_length_receive_is_a_no_op() {
    let mut st = Storage::new();
    st.holdings[0] = 7;
    let r = process_data(&mut st, 1, &Vec::new());
    assert_eq!(r, Ok((false, None)));
    assert_eq!(st.holdings[0], 7);
}

#[test]
fn received_request_produces_reply_and_flag() {
    let mut st = Storage::new();
    // write single register: flag set, echo reply
    let wreq = vec![0, 9, 0, 0, 0, 6, 1, 6, 0, 0, 0, 5];
    let (mutated, reply) = process_data(&mut st, 1, &wreq).unwrap();
    assert!(mutated);
    assert_eq!(reply, Some(vec![0, 9, 0, 0, 0, 6, 1, 6, 0, 0, 0, 5]));
    assert_eq!(st.holdings[0], 5);
    // read it back: flag clear
    let rreq = vec![0, 10, 0, 0, 0, 6, 1, 3, 0, 0, 0, 1];
    let (mutated, reply) = process_data(&mut st, 1, &rreq).unwrap();
    assert!(!mutated);
    assert_eq!(reply, Some(vec![0, 10, 0, 0, 0, 5, 1, 3, 2, 0, 5]));
    // a malformed frame is a protocol error and leaves everything alone
    let bad = vec![0, 11, 0, 0];
    assert!(process_data(&mut st, 1, &bad).is_err());
    assert_eq!(st.holdings[0], 5);
}

#[test]
fn declared_length_overrun_is_protocol_error() {
    let mut st = Storage::new();
    st.holdings[0] = 3;
    // the header declares six payload bytes; only three arrived
    let short = vec![0, 1, 0, 0, 0, 6, 1, 3, 0];
    assert!(process_data(&mut st, 1, &short).is_err());
    assert_eq!(st.holdings[0], 3);
    // an incomplete header is dropped the same way
    let header = vec![0, 1, 0, 0, 0];
    assert!(process_data(&mut st, 1, &header).is_err());
    // the same request received whole is answered
    let whole = vec![0, 1, 0, 0, 0, 6, 1, 3, 0, 0, 0, 1];
    let (mutated, reply) = process_data(&mut st, 1, &whole).unwrap();
    assert!(!mutated);
    assert_eq!(reply, Some(vec![0, 1, 0, 0, 0, 5, 1, 3, 2, 0, 3]));
}
