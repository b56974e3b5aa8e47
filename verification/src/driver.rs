//! The connection driver, modelled as a state machine.
//!
//! The real driver is a long-lived background task bound one-to-one to a
//! live TCP stream: its loop races "a command arrived on the outgoing
//! queue" against "bytes are readable on the socket" and handles whichever
//! is ready. Everything it decides is captured here as a pure step
//! function from state and event to next state and wire operations, so the
//! loop that hosts it only performs I/O; it takes no decision of its own.

use vstd::prelude::*;

use crate::action::OutgoingSocketAction;

verus! {

/// The lifecycle of one connection. `Closed` and `Errored` are terminal;
/// reaching either closes both queues and ends the driver task.
#[derive(Clone, Copy, Debug, PartialEq, Eq, Structural)]
pub enum ConnectionState {
    /// Connection establishment is still in flight.
    Connecting,
    /// The stream is live; commands and inbound bytes are serviced.
    Connected,
    /// An orderly shutdown has been issued and the driver is stopping.
    Closing,
    /// The connection ended in an orderly fashion.
    Closed,
    /// The connection ended with an I/O failure.
    Errored,
}

/// An asynchronous notification delivered into the script event system.
#[derive(Clone, Copy, Debug, PartialEq, Eq, Structural)]
pub enum LifecycleEvent {
    /// The connection was established.
    Connect,
    /// The connection ended.
    Close,
    /// An I/O failure ended the connection.
    IoError,
    /// A platform constraint rejected the operation.
    SecurityError,
}

/// One thing the driver observes: a command from script, the producer side
/// of the command queue going away, inbound bytes, the peer closing its
/// end, or an I/O failure.
#[derive(Debug)]
pub enum DriverEvent {
    /// Connection establishment finished successfully.
    Established,
    /// Script enqueued a command on the outgoing queue.
    Command(OutgoingSocketAction),
    /// The outgoing-queue producer was dropped: no more commands can ever
    /// arrive, which the driver treats as an implicit close.
    CommandsDropped,
    /// A chunk of bytes was read from the socket.
    Inbound(Vec<u8>),
    /// A zero-length read: the peer closed its end.
    PeerClosed,
    /// The socket failed.
    Failed,
}

/// One thing the driver does in response: touch the wire, move data into
/// the receive queue, tear a queue down, or raise a lifecycle event.
#[derive(Clone, Debug)]
pub enum WireOp {
    /// Write these bytes to the socket, retrying short writes until every
    /// byte is written or the connection errors.
    WireWrite(Vec<u8>),
    /// Flush the underlying stream, best effort: no error is fatal.
    WireFlush,
    /// Shut the socket down in an orderly fashion.
    WireShutdown,
    /// Push this chunk onto the receive queue.
    DeliverChunk(Vec<u8>),
    /// Mark the receive queue disconnected: no more data will arrive.
    CloseReceiveQueue,
    /// Stop consuming the outgoing queue.
    CloseCommandQueue,
    /// Raise this event into the script event system.
    RaiseEvent(LifecycleEvent),
}

/// What [`driver_step`] decides, as a pure function: the successor state
/// and the operations to perform, in order.
pub open spec fn driver_step_spec(state: ConnectionState, event: DriverEvent) -> (
    ConnectionState,
    Seq<WireOp>,
) {
    match (state, event) {
        (ConnectionState::Connecting, DriverEvent::Established) => (
            ConnectionState::Connected,
            seq![WireOp::RaiseEvent(LifecycleEvent::Connect)],
        ),
        (ConnectionState::Connecting, DriverEvent::Failed) => (
            ConnectionState::Errored,
            seq![WireOp::RaiseEvent(LifecycleEvent::IoError)],
        ),
        (ConnectionState::Connected, DriverEvent::Command(OutgoingSocketAction::Write(b))) => (
            ConnectionState::Connected,
            seq![WireOp::WireWrite(b)],
        ),
        (ConnectionState::Connected, DriverEvent::Command(OutgoingSocketAction::Flush)) => (
            ConnectionState::Connected,
            seq![WireOp::WireFlush],
        ),
        (ConnectionState::Connected, DriverEvent::Command(OutgoingSocketAction::Close)) => (
            ConnectionState::Closed,
            seq![WireOp::WireShutdown, WireOp::CloseReceiveQueue, WireOp::CloseCommandQueue],
        ),
        (ConnectionState::Connected, DriverEvent::CommandsDropped) => (
            ConnectionState::Closed,
            seq![WireOp::WireShutdown, WireOp::CloseReceiveQueue, WireOp::CloseCommandQueue],
        ),
        (ConnectionState::Connected, DriverEvent::Inbound(c)) => (
            ConnectionState::Connected,
            seq![WireOp::DeliverChunk(c)],
        ),
        (ConnectionState::Connected, DriverEvent::PeerClosed) => (
            ConnectionState::Closed,
            seq![
                WireOp::CloseReceiveQueue,
                WireOp::CloseCommandQueue,
                WireOp::RaiseEvent(LifecycleEvent::Close),
            ],
        ),
        (ConnectionState::Connected, DriverEvent::Failed) => (
            ConnectionState::Errored,
            seq![
                WireOp::CloseReceiveQueue,
                WireOp::CloseCommandQueue,
                WireOp::RaiseEvent(LifecycleEvent::IoError),
            ],
        ),
        (s, _) => (s, Seq::<WireOp>::empty()),
    }
}

/// One turn of the driver loop: given the current state and the event that
/// became ready, decide the successor state and the operations to perform,
/// in order. Commands are handled in submission order and inbound chunks
/// in arrival order; the queues deliver them that way and each call
/// handles exactly one.
pub fn driver_step(state: ConnectionState, event: DriverEvent) -> (r: (
    ConnectionState,
    Vec<WireOp>,
))
    ensures
        r.0 == driver_step_spec(state, event).0,
        r.1@ == driver_step_spec(state, event).1,
{
    match (state, event) {
        (ConnectionState::Connecting, DriverEvent::Established) => (
            ConnectionState::Connected,
            vec![WireOp::RaiseEvent(LifecycleEvent::Connect)],
        ),
        (ConnectionState::Connecting, DriverEvent::Failed) => (
            ConnectionState::Errored,
            vec![WireOp::RaiseEvent(LifecycleEvent::IoError)],
        ),
        (ConnectionState::Connected, DriverEvent::Command(OutgoingSocketAction::Write(b))) => (
            ConnectionState::Connected,
            vec![WireOp::WireWrite(b)],
        ),
        (ConnectionState::Connected, DriverEvent::Command(OutgoingSocketAction::Flush)) => (
            ConnectionState::Connected,
            vec![WireOp::WireFlush],
        ),
        (ConnectionState::Connected, DriverEvent::Command(OutgoingSocketAction::Close)) => (
            ConnectionState::Closed,
            vec![WireOp::WireShutdown, WireOp::CloseReceiveQueue, WireOp::CloseCommandQueue],
        ),
        (ConnectionState::Connected, DriverEvent::CommandsDropped) => (
            ConnectionState::Closed,
            vec![WireOp::WireShutdown, WireOp::CloseReceiveQueue, WireOp::CloseCommandQueue],
        ),
        (ConnectionState::Connected, DriverEvent::Inbound(c)) => (
            ConnectionState::Connected,
            vec![WireOp::DeliverChunk(c)],
        ),
        (ConnectionState::Connected, DriverEvent::PeerClosed) => (
            ConnectionState::Closed,
            vec![
                WireOp::CloseReceiveQueue,
                WireOp::CloseCommandQueue,
                WireOp::RaiseEvent(LifecycleEvent::Close),
            ],
        ),
        (ConnectionState::Connected, DriverEvent::Failed) => (
            ConnectionState::Errored,
            vec![
                WireOp::CloseReceiveQueue,
                WireOp::CloseCommandQueue,
                WireOp::RaiseEvent(LifecycleEvent::IoError),
            ],
        ),
        (s, _) => (s, Vec::new()),
    }
}

/// The bytes a faithful driver puts on the wire for a queue of commands:
/// the payloads of the `Write` commands, concatenated in submission order,
/// stopping at the first `Close`.
pub open spec fn wire_bytes_of(cmds: Seq<OutgoingSocketAction>) -> Seq<u8>
    decreases cmds.len(),
{
    if cmds.len() == 0 {
        Seq::<u8>::empty()
    } else {
        match cmds.first() {
            OutgoingSocketAction::Write(b) => b@ + wire_bytes_of(cmds.drop_first()),
            OutgoingSocketAction::Flush => wire_bytes_of(cmds.drop_first()),
            OutgoingSocketAction::Close => Seq::<u8>::empty(),
        }
    }
}

/// Whether the queue of commands contains a `Close`.
pub open spec fn closes(cmds: Seq<OutgoingSocketAction>) -> bool
    decreases cmds.len(),
{
    cmds.len() > 0 && (cmds.first() is Close || closes(cmds.drop_first()))
}

/// The bytes written to the socket by a trace of wire operations, in order.
pub open spec fn written_bytes(trace: Seq<WireOp>) -> Seq<u8>
    decreases trace.len(),
{
    if trace.len() == 0 {
        Seq::<u8>::empty()
    } else {
        written_bytes(trace.drop_last()) + (match trace.last() {
            WireOp::WireWrite(b) => b@,
            _ => Seq::<u8>::empty(),
        })
    }
}

/// Whether a trace of wire operations shuts the socket down.
pub open spec fn has_shutdown(trace: Seq<WireOp>) -> bool
    decreases trace.len(),
{
    trace.len() > 0 && (trace.last() is WireShutdown || has_shutdown(trace.drop_last()))
}

/// Ordering across calls: as long as no `Close` has been submitted,
/// submitting further commands only appends further bytes to the wire, and
/// commands submitted after a `Close` write nothing.
pub proof fn lemma_wire_append(a: Seq<OutgoingSocketAction>, b: Seq<OutgoingSocketAction>)
    ensures
        !closes(a) ==> wire_bytes_of(a + b) == wire_bytes_of(a) + wire_bytes_of(b),
        closes(a) ==> wire_bytes_of(a + b) == wire_bytes_of(a),
        closes(a + b) == (closes(a) || closes(b)),
    decreases a.len(),
{
    if a.len() == 0 {
        assert(a + b =~= b);
        assert(wire_bytes_of(a) + wire_bytes_of(b) =~= wire_bytes_of(b));
    } else {
        lemma_wire_append(a.drop_first(), b);
        assert((a + b).len() > 0);
        assert((a + b).first() == a.first());
        assert((a + b).drop_first() =~= a.drop_first() + b);
        match a.first() {
            OutgoingSocketAction::Write(p) => {
                if !closes(a) {
                    assert(p@ + (wire_bytes_of(a.drop_first()) + wire_bytes_of(b)) =~= (p@
                        + wire_bytes_of(a.drop_first())) + wire_bytes_of(b));
                }
            },
            OutgoingSocketAction::Flush => {},
            OutgoingSocketAction::Close => {},
        }
    }
}

/// Concatenating two traces writes the bytes of the first, then the bytes
/// of the second, and shuts down exactly when one of them does.
pub proof fn lemma_written_append(t: Seq<WireOp>, u: Seq<WireOp>)
    ensures
        written_bytes(t + u) == written_bytes(t) + written_bytes(u),
        has_shutdown(t + u) == (has_shutdown(t) || has_shutdown(u)),
    decreases u.len(),
{
    if u.len() == 0 {
        assert(t + u =~= t);
        assert(written_bytes(t) + written_bytes(u) =~= written_bytes(t));
    } else {
        lemma_written_append(t, u.drop_last());
        assert((t + u).len() > 0);
        assert((t + u).last() == u.last());
        assert((t + u).drop_last() =~= t + u.drop_last());
        let tail = match u.last() {
            WireOp::WireWrite(b) => b@,
            _ => Seq::<u8>::empty(),
        };
        assert((written_bytes(t) + written_bytes(u.drop_last())) + tail =~= written_bytes(t) + (
        written_bytes(u.drop_last()) + tail));
    }
}

/// A trace shuts the socket down exactly when one of its operations is a
/// shutdown.
pub proof fn lemma_has_shutdown_index(trace: Seq<WireOp>)
    ensures
        has_shutdown(trace) <==> exists|i: int|
            0 <= i < trace.len() && #[trigger] (trace[i]) is WireShutdown,
    decreases trace.len(),
{
    if trace.len() > 0 {
        lemma_has_shutdown_index(trace.drop_last());
        if trace.last() is WireShutdown {
            assert(trace[trace.len() - 1] is WireShutdown);
        } else if has_shutdown(trace.drop_last()) {
            let i = choose|i: int|
                0 <= i < trace.drop_last().len() && #[trigger] (trace.drop_last()[i])
                    is WireShutdown;
            assert(trace[i] is WireShutdown);
        } else {
            assert forall|i: int|
                0 <= i < trace.len() && #[trigger] (trace[i]) is WireShutdown implies false by {
                if i < trace.len() - 1 {
                    assert(trace.drop_last()[i] is WireShutdown);
                }
            }
        }
    }
}

/// A queue holding one command writes that command's bytes and closes
/// exactly when the command is a `Close`.
pub proof fn lemma_single_command(c: OutgoingSocketAction)
    ensures
        wire_bytes_of(seq![c]) == c.wire_bytes(),
        closes(seq![c]) == (c is Close),
{
    let s = seq![c];
    assert(s.len() == 1);
    assert(s.first() == c);
    assert(s.drop_first() =~= Seq::<OutgoingSocketAction>::empty());
    assert(wire_bytes_of(s.drop_first()) == Seq::<u8>::empty());
    assert(!closes(s.drop_first()));
    match c {
        OutgoingSocketAction::Write(b) => {
            assert(wire_bytes_of(s) == b@ + Seq::<u8>::empty());
            assert(b@ + Seq::<u8>::empty() =~= b@);
        },
        OutgoingSocketAction::Flush => {
            assert(wire_bytes_of(s) == Seq::<u8>::empty());
        },
        OutgoingSocketAction::Close => {
            assert(wire_bytes_of(s) == Seq::<u8>::empty());
        },
    }
}

/// Run the driver over a whole queue of commands, starting from a live
/// connection, and collect the operations it performs.
///
/// The contract is the ordering guarantee of the bridge: the bytes put on
/// the wire, in order, are exactly the concatenation of the written
/// payloads in submission order; the socket is shut down exactly when a
/// `Close` was submitted; and the shutdown comes only after every
/// preceding write has reached the wire.
pub fn process_commands(cmds: Vec<OutgoingSocketAction>) -> (trace: Vec<WireOp>)
    ensures
        written_bytes(trace@) == wire_bytes_of(cmds@),
        has_shutdown(trace@) == closes(cmds@),
        forall|j: int, k: int|
            0 <= j < trace@.len() && 0 <= k < trace@.len() && trace@[j] is WireWrite && trace@[k]
                is WireShutdown ==> j < k,
{
    let ghost all = cmds@;
    let mut rest = cmds;
    let mut trace: Vec<WireOp> = Vec::new();
    let mut state = ConnectionState::Connected;
    let ghost mut done = Seq::<OutgoingSocketAction>::empty();
    proof {
        assert(all =~= done + rest@);
    }
    while rest.len() > 0 && state == ConnectionState::Connected
        invariant
            all == done + rest@,
            state == ConnectionState::Connected || state == ConnectionState::Closed,
            state == ConnectionState::Connected ==> !closes(done),
            state == ConnectionState::Closed ==> closes(done),
            written_bytes(trace@) == wire_bytes_of(done),
            has_shutdown(trace@) == closes(done),
            forall|j: int, k: int|
                0 <= j < trace@.len() && 0 <= k < trace@.len() && trace@[j] is WireWrite
                    && trace@[k] is WireShutdown ==> j < k,
        decreases rest@.len(),
    {
        let ghost rest0 = rest@;
        let ghost trace0 = trace@;
        let cmd = rest.remove(0);
        let ghost c = cmd;
        let (next, mut ops) = driver_step(state, DriverEvent::Command(cmd));
        trace.append(&mut ops);
        state = next;
        proof {
            let done2 = done.push(c);
            let single = seq![c];
            assert(rest0 =~= single + rest@);
            assert(done2 =~= done + single);
            assert(all =~= done2 + rest@);
            assert(single.drop_first() =~= Seq::<OutgoingSocketAction>::empty());
            lemma_wire_append(done, single);
            lemma_written_append(trace0, driver_step_spec(
                ConnectionState::Connected,
                DriverEvent::Command(c),
            ).1);
            lemma_single_command(c);
            match c {
                OutgoingSocketAction::Write(b) => {
                    let ops1 = seq![WireOp::WireWrite(b)];
                    assert(ops1.len() == 1);
                    assert(ops1.last() == WireOp::WireWrite(b));
                    assert(ops1.drop_last() =~= Seq::<WireOp>::empty());
                    assert(written_bytes(ops1.drop_last()) == Seq::<u8>::empty());
                    assert(written_bytes(ops1) == written_bytes(ops1.drop_last()) + b@);
                    assert(written_bytes(ops1) =~= b@);
                    assert(!has_shutdown(ops1.drop_last()));
                    assert(!has_shutdown(ops1));
                    assert(wire_bytes_of(done2) =~= wire_bytes_of(done) + b@);
                    assert(written_bytes(trace@) =~= wire_bytes_of(done2));
                    assert(!closes(done2));
                    lemma_has_shutdown_index(trace@);
                    assert forall|j: int, k: int|
                        0 <= j < trace@.len() && 0 <= k < trace@.len() && trace@[j] is WireWrite
                            && trace@[k] is WireShutdown implies j < k by {
                        assert(has_shutdown(trace@) == false);
                    }
                },
                OutgoingSocketAction::Flush => {
                    let ops1 = seq![WireOp::WireFlush];
                    assert(ops1.len() == 1);
                    assert(ops1.last() == WireOp::WireFlush);
                    assert(ops1.drop_last() =~= Seq::<WireOp>::empty());
                    assert(written_bytes(ops1.drop_last()) == Seq::<u8>::empty());
                    assert(written_bytes(ops1) =~= Seq::<u8>::empty());
                    assert(!has_shutdown(ops1.drop_last()));
                    assert(!has_shutdown(ops1));
                    assert(wire_bytes_of(done2) =~= wire_bytes_of(done));
                    assert(written_bytes(trace@) =~= written_bytes(trace0));
                    assert(!closes(done2));
                    lemma_has_shutdown_index(trace@);
                    assert forall|j: int, k: int|
                        0 <= j < trace@.len() && 0 <= k < trace@.len() && trace@[j] is WireWrite
                            && trace@[k] is WireShutdown implies j < k by {
                        assert(has_shutdown(trace@) == false);
                    }
                },
                OutgoingSocketAction::Close => {
                    let ops3 = seq![
                        WireOp::WireShutdown,
                        WireOp::CloseReceiveQueue,
                        WireOp::CloseCommandQueue,
                    ];
                    let ops2 = ops3.drop_last();
                    let ops1 = ops2.drop_last();
                    assert(ops3.len() == 3 && ops3.last() == WireOp::CloseCommandQueue);
                    assert(ops2 =~= seq![WireOp::WireShutdown, WireOp::CloseReceiveQueue]);
                    assert(ops2.len() == 2 && ops2.last() == WireOp::CloseReceiveQueue);
                    assert(ops1 =~= seq![WireOp::WireShutdown]);
                    assert(ops1.len() == 1 && ops1.last() == WireOp::WireShutdown);
                    assert(ops1.drop_last() =~= Seq::<WireOp>::empty());
                    assert(written_bytes(ops1.drop_last()) == Seq::<u8>::empty());
                    assert(written_bytes(ops1) =~= Seq::<u8>::empty());
                    assert(written_bytes(ops2) =~= Seq::<u8>::empty());
                    assert(written_bytes(ops3) =~= Seq::<u8>::empty());
                    assert(has_shutdown(ops1));
                    assert(has_shutdown(ops2));
                    assert(has_shutdown(ops3));
                    assert(closes(done2));
                    assert(wire_bytes_of(done2) =~= wire_bytes_of(done) + Seq::<u8>::empty());
                    assert(wire_bytes_of(done) + Seq::<u8>::empty() =~= wire_bytes_of(done));
                    assert(written_bytes(trace@) == written_bytes(trace0) + written_bytes(ops3));
                    assert(written_bytes(trace0) + Seq::<u8>::empty() =~= written_bytes(trace0));
                    lemma_has_shutdown_index(trace0);
                    assert forall|j: int, k: int|
                        0 <= j < trace@.len() && 0 <= k < trace@.len() && trace@[j] is WireWrite
                            && trace@[k] is WireShutdown implies j < k by {
                        assert(trace@ == trace0 + ops3);
                        if j >= trace0.len() {
                            assert(trace@[j] == ops3[j - trace0.len()]);
                        }
                        if k < trace0.len() {
                            assert(trace0[k] is WireShutdown);
                            assert(has_shutdown(trace0));
                        }
                    }
                },
            }
            done = done2;
        }
    }
    proof {
        if rest@.len() == 0 {
            assert(all =~= done);
        } else {
            lemma_wire_append(done, rest@);
        }
    }
    trace
}

} // verus!
