//! A scripted socket bridge: the subsystem that lets code running inside a
//! single-threaded, cooperative script interpreter open and drive raw TCP
//! connections whose I/O actually executes on a separate asynchronous runtime.
//!
//! The interpreter side and the I/O side communicate only through two
//! message queues per connection: an outgoing command queue (script to
//! driver) and a receive queue (driver to script). No call made from the
//! interpreter thread ever blocks on the network.

pub mod action;
pub mod buffer;
pub mod channel;
pub mod driver;
pub mod errors;
pub mod handle;
pub mod manager;
pub mod recv;
pub mod socket;
pub mod stub;

pub use action::OutgoingSocketAction;
pub use buffer::ByteBuffer;
pub use errors::{ErrorCategory, SocketError};
pub use handle::SocketHandle;
pub use socket::{close, connect, flush, read_bytes, write_byte, write_bytes, ConnectRequest};
pub use stub::{Stub, StubCollection};
