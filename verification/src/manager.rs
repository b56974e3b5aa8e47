//! The connection manager's wiring step.
//!
//! Resolving a [`crate::socket::ConnectRequest`] into a live TCP stream is
//! asynchronous work that happens on the I/O runtime. What happens on
//! success is decided here: create the two queues, install the script-side
//! endpoints on the handle, and hand the driver-side endpoints to the
//! driver task that will own the stream.

use vstd::prelude::*;

use crate::action::OutgoingSocketAction;
use crate::errors::SocketError;
use crate::handle::SocketHandle;

verus! {

/// The queue endpoints that belong to the driver task: the consumer of
/// script's commands and the producer of inbound chunks.
pub struct DriverEndpoints {
    /// Where the driver takes script's commands from, in submission order.
    pub commands: flume::Receiver<OutgoingSocketAction>,
    /// Where the driver pushes inbound chunks, in arrival order.
    pub inbound: flume::Sender<Vec<u8>>,
}

/// Wire a freshly established connection: create the outgoing command
/// queue and the receive queue, install the script-side endpoints on the
/// handle, and return the driver-side endpoints. A handle that already
/// connected once is refused untouched: a handle stands for a single
/// connection attempt.
pub fn install_connection(handle: &mut SocketHandle) -> (r: Result<DriverEndpoints, SocketError>)
    ensures
        !old(handle).was_opened() ==> (r matches Ok(_) && final(handle).is_open() && final(handle).was_opened() && final(handle).buffered() == old(handle).buffered()),
        old(handle).was_opened() ==> (r matches Err(e) && e == SocketError::AlreadyConnected
            && *final(handle) == *old(handle)),
{
    if handle.has_connected() {
        return Err(SocketError::AlreadyConnected);
    }
    let (command_tx, command_rx) = flume::unbounded::<OutgoingSocketAction>();
    let (chunk_tx, chunk_rx) = flume::unbounded::<Vec<u8>>();
    let installed = handle.set_queues(command_tx, chunk_rx);
    match installed {
        Ok(()) => Ok(DriverEndpoints { commands: command_rx, inbound: chunk_tx }),
        Err(e) => Err(e),
    }
}

} // verus!
