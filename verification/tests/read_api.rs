use socket_bridge::buffer::ByteBuffer;
use socket_bridge::errors::{ErrorCategory, SocketError};
use socket_bridge::handle::SocketHandle;
use socket_bridge::manager::install_connection;
use socket_bridge::socket::read_bytes;

#[test]
fn read_needs_a_connection() {
    let mut handle = SocketHandle::new();
    let mut buffer = ByteBuffer::new();
    assert_eq!(
        read_bytes(&mut handle, &mut buffer, 0).err().unwrap(),
        SocketError::NotOpen
    );
}

#[test]
fn read_zero_drains_everything_buffered() {
    let mut handle = SocketHandle::new();
    let endpoints = install_connection(&mut handle).unwrap();
    endpoints.inbound.send(vec![1u8, 2]).unwrap();
    endpoints.inbound.send(vec![3u8]).unwrap();
    let mut buffer = ByteBuffer::new();
    let n = read_bytes(&mut handle, &mut buffer, 0).unwrap();
    assert_eq!(n, 3);
    assert_eq!(buffer.bytes(), &vec![1u8, 2, 3]);
    assert_eq!(buffer.position(), 3);
}

#[test]
fn successive_drains_concatenate_in_order() {
    let mut handle = SocketHandle::new();
    let endpoints = install_connection(&mut handle).unwrap();
    let mut buffer = ByteBuffer::new();
    endpoints.inbound.send(vec![1u8, 2]).unwrap();
    read_bytes(&mut handle, &mut buffer, 0).unwrap();
    endpoints.inbound.send(vec![3u8]).unwrap();
    endpoints.inbound.send(vec![4u8, 5]).unwrap();
    read_bytes(&mut handle, &mut buffer, 0).unwrap();
    assert_eq!(buffer.bytes(), &vec![1u8, 2, 3, 4, 5]);
    assert_eq!(buffer.position(), 5);
}

#[test]
fn bounded_read_is_exact_or_fails() {
    let mut handle = SocketHandle::new();
    let endpoints = install_connection(&mut handle).unwrap();
    endpoints.inbound.send(vec![1u8, 2, 3]).unwrap();
    let mut buffer = ByteBuffer::new();
    let n = read_bytes(&mut handle, &mut buffer, 2).unwrap();
    assert_eq!(n, 2);
    assert_eq!(buffer.bytes(), &vec![1u8, 2]);
    // Asking for more than is buffered consumes nothing.
    let e = read_bytes(&mut handle, &mut buffer, 5).err().unwrap();
    assert_eq!(e, SocketError::InsufficientData);
    assert_eq!(e.category(), ErrorCategory::EndOfData);
    assert_eq!(buffer.bytes(), &vec![1u8, 2]);
    // The unconsumed byte is still there.
    let n = read_bytes(&mut handle, &mut buffer, 1).unwrap();
    assert_eq!(n, 1);
    assert_eq!(buffer.bytes(), &vec![1u8, 2, 3]);
}

#[test]
fn peer_close_delivers_remainder_then_disconnects() {
    let mut handle = SocketHandle::new();
    let endpoints = install_connection(&mut handle).unwrap();
    endpoints.inbound.send(vec![9u8, 8]).unwrap();
    drop(endpoints);
    let mut buffer = ByteBuffer::new();
    // Buffered bytes are still delivered after the peer is gone.
    let n = read_bytes(&mut handle, &mut buffer, 0).unwrap();
    assert_eq!(n, 2);
    assert_eq!(buffer.bytes(), &vec![9u8, 8]);
    // Once drained, every further read reports disconnected.
    let e = read_bytes(&mut handle, &mut buffer, 0).err().unwrap();
    assert_eq!(e, SocketError::Disconnected);
    assert_eq!(e.category(), ErrorCategory::Socket);
    let e = read_bytes(&mut handle, &mut buffer, 3).err().unwrap();
    assert_eq!(e, SocketError::Disconnected);
    assert_eq!(buffer.bytes(), &vec![9u8, 8]);
}

#[test]
fn read_appends_at_cursor_and_keeps_prefix() {
    let mut handle = SocketHandle::new();
    let endpoints = install_connection(&mut handle).unwrap();
    let mut buffer = ByteBuffer::new();
    endpoints.inbound.send(vec![1u8, 2]).unwrap();
    read_bytes(&mut handle, &mut buffer, 0).unwrap();
    endpoints.inbound.send(vec![3u8]).unwrap();
    read_bytes(&mut handle, &mut buffer, 0).unwrap();
    // Earlier bytes were never overwritten; the cursor tracked the total.
    assert_eq!(buffer.bytes(), &vec![1u8, 2, 3]);
    assert_eq!(buffer.position(), 3);
}

#[test]
fn empty_read_on_live_connection_is_empty_success() {
    let mut handle = SocketHandle::new();
    let _endpoints = install_connection(&mut handle).unwrap();
    let mut buffer = ByteBuffer::new();
    let n = read_bytes(&mut handle, &mut buffer, 0).unwrap();
    assert_eq!(n, 0);
    assert_eq!(buffer.position(), 0);
}

#[test]
fn buffer_write_at_overwrites_in_place() {
    let mut buffer = ByteBuffer::new();
    buffer.write_at(&vec![1u8, 2, 3], 0).unwrap();
    assert_eq!(buffer.bytes(), &vec![1u8, 2, 3]);
    buffer.write_at(&vec![9u8], 1).unwrap();
    assert_eq!(buffer.bytes(), &vec![1u8, 9, 3]);
    buffer.write_at(&vec![7u8, 7], 2).unwrap();
    assert_eq!(buffer.bytes(), &vec![1u8, 9, 7, 7]);
    // The cursor never moved: write_at is position-addressed.
    assert_eq!(buffer.position(), 0);
}

#[test]
fn buffer_rejects_out_of_range_positions() {
    let mut buffer = ByteBuffer::new();
    buffer.write_at(&vec![1u8, 2], 0).unwrap();
    assert_eq!(
        buffer.write_at(&vec![3u8], 5).err().unwrap(),
        SocketError::InvalidArgument
    );
    assert_eq!(
        buffer.set_position(3).err().unwrap(),
        SocketError::InvalidArgument
    );
    buffer.set_position(1).unwrap();
    assert_eq!(buffer.position(), 1);
}
