use socket_bridge::action::OutgoingSocketAction;
use socket_bridge::errors::{ErrorCategory, SocketError};
use socket_bridge::handle::SocketHandle;
use socket_bridge::manager::install_connection;
use socket_bridge::socket::{byte_payload, close, connect, flush, write_byte, write_bytes, write_payload};

#[test]
fn connect_rejects_large_port() {
    let r = connect(String::from("localhost"), 65536);
    assert_eq!(r.err().unwrap(), SocketError::InvalidPort);
    let r = connect(String::from("localhost"), 4_000_000_000);
    let e = r.err().unwrap();
    assert_eq!(e, SocketError::InvalidPort);
    assert_eq!(e.category(), ErrorCategory::Security);
}

#[test]
fn connect_accepts_valid_port() {
    let r = connect(String::from("127.0.0.1"), 9000).unwrap();
    assert_eq!(r.host, "127.0.0.1");
    assert_eq!(r.port, 9000);
    let r = connect(String::from("example.com"), 65535).unwrap();
    assert_eq!(r.port, 65535);
    let r = connect(String::from("example.com"), 0).unwrap();
    assert_eq!(r.port, 0);
}

#[test]
fn payload_selects_requested_span() {
    let bytes = vec![1u8, 2, 3, 4];
    assert_eq!(write_payload(&bytes, 1, 2).unwrap(), vec![2u8, 3]);
    assert_eq!(write_payload(&bytes, 0, 0).unwrap(), vec![1u8, 2, 3, 4]);
    assert_eq!(write_payload(&bytes, 2, 0).unwrap(), vec![3u8, 4]);
    assert_eq!(write_payload(&bytes, 4, 0).unwrap(), Vec::<u8>::new());
}

#[test]
fn payload_rejects_bad_span() {
    let bytes = vec![1u8, 2, 3, 4];
    assert_eq!(
        write_payload(&bytes, 5, 0).err().unwrap(),
        SocketError::InvalidArgument
    );
    assert_eq!(
        write_payload(&bytes, 2, 3).err().unwrap(),
        SocketError::InvalidArgument
    );
    assert_eq!(
        SocketError::InvalidArgument.category(),
        ErrorCategory::Argument
    );
}

#[test]
fn byte_payload_is_the_low_eight_bits() {
    assert_eq!(byte_payload(0), vec![0u8]);
    assert_eq!(byte_payload(7), vec![7u8]);
    assert_eq!(byte_payload(-1), vec![0xffu8]);
    assert_eq!(byte_payload(321), vec![65u8]);
    assert_eq!(byte_payload(i32::MIN), vec![0u8]);
}

#[test]
fn writes_need_a_connection() {
    let handle = SocketHandle::new();
    let bytes = vec![1u8];
    assert_eq!(
        write_bytes(&handle, &bytes, 0, 0).err().unwrap(),
        SocketError::NotOpen
    );
    assert_eq!(write_byte(&handle, 3).err().unwrap(), SocketError::NotOpen);
    assert_eq!(flush(&handle).err().unwrap(), SocketError::NotOpen);
    assert_eq!(SocketError::NotOpen.category(), ErrorCategory::Socket);
}

#[test]
fn write_bytes_enqueues_the_slice() {
    let mut handle = SocketHandle::new();
    let endpoints = install_connection(&mut handle).unwrap();
    let bytes = vec![10u8, 20, 30, 40];
    write_bytes(&handle, &bytes, 1, 2).unwrap();
    match endpoints.commands.recv().unwrap() {
        OutgoingSocketAction::Write(payload) => assert_eq!(payload, vec![20u8, 30]),
        other => panic!("expected a write, got {:?}", other),
    }
}

#[test]
fn write_byte_sends_low_eight_bits() {
    let mut handle = SocketHandle::new();
    let endpoints = install_connection(&mut handle).unwrap();
    write_byte(&handle, -1).unwrap();
    write_byte(&handle, 0x141).unwrap();
    write_byte(&handle, 7).unwrap();
    let expected = [vec![0xffu8], vec![0x41u8], vec![7u8]];
    for want in expected {
        match endpoints.commands.recv().unwrap() {
            OutgoingSocketAction::Write(payload) => assert_eq!(payload, want),
            other => panic!("expected a write, got {:?}", other),
        }
    }
}

#[test]
fn flush_enqueues_flush() {
    let mut handle = SocketHandle::new();
    let endpoints = install_connection(&mut handle).unwrap();
    flush(&handle).unwrap();
    assert!(matches!(
        endpoints.commands.recv().unwrap(),
        OutgoingSocketAction::Flush
    ));
}

#[test]
fn close_sends_close_then_drops_endpoints() {
    let mut handle = SocketHandle::new();
    let endpoints = install_connection(&mut handle).unwrap();
    write_byte(&handle, 1).unwrap();
    close(&mut handle).unwrap();
    assert!(matches!(
        endpoints.commands.recv().unwrap(),
        OutgoingSocketAction::Write(_)
    ));
    assert!(matches!(
        endpoints.commands.recv().unwrap(),
        OutgoingSocketAction::Close
    ));
    // The producer end is gone: the driver sees "no more commands".
    assert!(endpoints.commands.recv().is_err());
}

#[test]
fn close_is_idempotent() {
    let mut handle = SocketHandle::new();
    let endpoints = install_connection(&mut handle).unwrap();
    close(&mut handle).unwrap();
    // Drain the only command the first close enqueued.
    assert!(matches!(
        endpoints.commands.recv().unwrap(),
        OutgoingSocketAction::Close
    ));
    assert!(endpoints.commands.recv().is_err());
    // A second close is a no-op: no panic, no error, no further command,
    // and the queues remain absent.
    close(&mut handle).unwrap();
    assert!(!handle.is_connected());
    assert!(handle.outgoing_queue().is_none());
    assert!(handle.recv_queue().is_none());
}

#[test]
fn close_without_connect_is_an_error() {
    let mut handle = SocketHandle::new();
    assert_eq!(close(&mut handle).err().unwrap(), SocketError::NotOpen);
}

#[test]
fn write_after_close_reports_not_open() {
    let mut handle = SocketHandle::new();
    let _endpoints = install_connection(&mut handle).unwrap();
    close(&mut handle).unwrap();
    assert_eq!(write_byte(&handle, 1).err().unwrap(), SocketError::NotOpen);
}

#[test]
fn write_fails_when_driver_is_gone() {
    let mut handle = SocketHandle::new();
    let endpoints = install_connection(&mut handle).unwrap();
    drop(endpoints);
    let e = write_byte(&handle, 1).err().unwrap();
    assert_eq!(e, SocketError::QueueClosed);
    assert_eq!(e.category(), ErrorCategory::Socket);
}

#[test]
fn queues_install_only_once() {
    let mut handle = SocketHandle::new();
    let _endpoints = install_connection(&mut handle).unwrap();
    assert_eq!(
        install_connection(&mut handle).err().unwrap(),
        SocketError::AlreadyConnected
    );
    // Even after a close: a handle stands for one connection attempt.
    close(&mut handle).unwrap();
    assert_eq!(
        install_connection(&mut handle).err().unwrap(),
        SocketError::AlreadyConnected
    );
}
