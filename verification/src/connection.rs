//! The decisions of the connection and of its two tasks.
//!
//! The socket itself is driven by the caller, who reports what happened as
//! an event and is told what to do next. One attempt is made to connect.
//! When it succeeds, a sender task and a receiver task run side by side and
//! independently: an error ends the task that met it and leaves the other
//! running. When it fails, nothing more is done: there is no second attempt.

use vstd::prelude::*;
use tokio::sync::mpsc::UnboundedSender;
use crate::channel::send;
use crate::message::WSMessages;

verus! {

/// One frame on the socket.
#[derive(Debug, PartialEq, Eq)]
pub enum Frame {
    Text(String),
    Binary(Vec<u8>),
    Ping(Vec<u8>),
    Pong(Vec<u8>),
    Close,
    /// Any frame of another kind.
    Other,
}

/// Whether `frame` is the frame that carries `message`: a record goes out
/// as the binary frame of its bytes, anything else as a ping of one zero
/// byte.
pub open spec fn is_frame_of(message: WSMessages, frame: Frame) -> bool {
    match message {
        WSMessages::Sync(bytes) => frame == Frame::Binary(bytes),
        WSMessages::Message(_) | WSMessages::Connected(_) | WSMessages::Disconnected(_) => {
            frame matches Frame::Ping(payload) && payload@ == seq![0u8]
        },
    }
}

/// The message that `frame` brings, if any: a binary frame is taken for a
/// record, undecoded; no other frame reaches the simulation.
pub open spec fn message_of(frame: Frame) -> Option<WSMessages> {
    match frame {
        Frame::Binary(bytes) => Some(WSMessages::Sync(bytes)),
        Frame::Text(_) | Frame::Ping(_) | Frame::Pong(_) | Frame::Close | Frame::Other => None,
    }
}

/// Makes the frame that carries `message`.
pub fn outbound_frame(message: WSMessages) -> (frame: Frame)
    ensures
        is_frame_of(message, frame),
{
    match message {
        WSMessages::Sync(bytes) => Frame::Binary(bytes),
        WSMessages::Message(_) | WSMessages::Connected(_) | WSMessages::Disconnected(_) => {
            let mut payload: Vec<u8> = Vec::new();
            payload.push(0u8);
            Frame::Ping(payload)
        },
    }
}

/// Takes the message out of `frame`, if it brings one.
pub fn inbound_message(frame: Frame) -> (message: Option<WSMessages>)
    ensures
        message == message_of(frame),
{
    match frame {
        Frame::Binary(bytes) => Some(WSMessages::Sync(bytes)),
        Frame::Text(_) | Frame::Ping(_) | Frame::Pong(_) | Frame::Close | Frame::Other => None,
    }
}

/// What the sender task has just seen.
#[derive(Debug, PartialEq, Eq)]
pub enum SenderEvent {
    /// The simulation has queued this message.
    Dequeued(WSMessages),
    /// The simulation's end of the queue is gone.
    QueueClosed,
    /// The last frame was written.
    Written,
    /// The last frame could not be written.
    WriteFailed,
}

/// What the sender task does next.
#[derive(Debug, PartialEq, Eq)]
pub enum SenderAction {
    /// Wait for the next queued message.
    Dequeue,
    /// Write this frame to the socket.
    Write(Frame),
    /// End the task.
    Stop,
}

/// Whether `action` is the sender task's answer to `event`.
pub open spec fn sender_answer(event: SenderEvent, action: SenderAction) -> bool {
    match event {
        SenderEvent::Dequeued(message) => action matches SenderAction::Write(frame) && is_frame_of(
            message,
            frame,
        ),
        SenderEvent::Written => action == SenderAction::Dequeue,
        SenderEvent::QueueClosed => action == SenderAction::Stop,
        SenderEvent::WriteFailed => action == SenderAction::Stop,
    }
}

/// One step of the sender task: every queued message is written as one
/// frame, and the first write that fails ends the task.
pub fn ws_sender(event: SenderEvent) -> (action: SenderAction)
    ensures
        sender_answer(event, action),
{
    match event {
        SenderEvent::Dequeued(message) => SenderAction::Write(outbound_frame(message)),
        SenderEvent::Written => SenderAction::Dequeue,
        SenderEvent::QueueClosed => SenderAction::Stop,
        SenderEvent::WriteFailed => SenderAction::Stop,
    }
}

/// What the receiver task has just seen.
#[derive(Debug, PartialEq, Eq)]
pub enum ReceiverEvent {
    /// This frame arrived.
    Arrived(Frame),
    /// The socket reported an error.
    Failed,
    /// The socket has ended.
    Ended,
}

/// What the receiver task does next.
#[derive(Debug, PartialEq, Eq)]
pub enum ReceiverAction {
    /// Put this message into the inbound queue, then wait for the next
    /// frame.
    Forward(WSMessages),
    /// Wait for the next frame.
    Skip,
    /// End the task.
    Stop,
}

/// The receiver task's answer to `event`.
pub open spec fn receiver_answer(event: ReceiverEvent) -> ReceiverAction {
    match event {
        ReceiverEvent::Arrived(frame) => match message_of(frame) {
            Some(message) => ReceiverAction::Forward(message),
            None => ReceiverAction::Skip,
        },
        ReceiverEvent::Failed => ReceiverAction::Stop,
        ReceiverEvent::Ended => ReceiverAction::Stop,
    }
}

/// One step of the receiver task, up to the queue: a binary frame is passed
/// on as it came, and the first error ends the task.
pub fn receiver_step(event: ReceiverEvent) -> (action: ReceiverAction)
    ensures
        action == receiver_answer(event),
{
    match event {
        ReceiverEvent::Arrived(frame) => match inbound_message(frame) {
            Some(message) => ReceiverAction::Forward(message),
            None => ReceiverAction::Skip,
        },
        ReceiverEvent::Failed => ReceiverAction::Stop,
        ReceiverEvent::Ended => ReceiverAction::Stop,
    }
}

/// What the receiver task did with one event.
#[derive(Clone, Copy, Debug, PartialEq, Eq, Structural)]
pub enum Received {
    /// A message went into the inbound queue.
    Forwarded,
    /// A message was due, but the simulation no longer listens: it is lost.
    Dropped,
    /// The frame brought no message.
    Skipped,
    /// The task has ended.
    Stopped,
}

/// One step of the receiver task, which puts what arrives into `to_us`. A
/// message that cannot be queued is dropped, and the task goes on.
pub fn ws_receiver(to_us: &UnboundedSender<WSMessages>, event: ReceiverEvent) -> (outcome: Received)
    ensures
        outcome is Stopped <==> receiver_answer(event) is Stop,
        outcome is Skipped <==> receiver_answer(event) is Skip,
        outcome is Forwarded || outcome is Dropped <==> receiver_answer(event) is Forward,
{
    match receiver_step(event) {
        ReceiverAction::Forward(message) => match send(to_us, message) {
            Ok(_) => Received::Forwarded,
            Err(_) => Received::Dropped,
        },
        ReceiverAction::Skip => Received::Skipped,
        ReceiverAction::Stop => Received::Stopped,
    }
}

/// Where the connection stands.
#[derive(Clone, Copy, Debug, PartialEq, Eq, Structural)]
pub enum Connection {
    /// The one attempt to connect is under way.
    Connecting,
    /// The socket is open. Each flag says whether that task still runs.
    Established { sending: bool, receiving: bool },
    /// The attempt failed. This is final.
    Failed,
}

/// What happened to the connection.
#[derive(Clone, Copy, Debug, PartialEq, Eq, Structural)]
pub enum ConnectionEvent {
    Connected,
    ConnectFailed,
    SenderStopped,
    ReceiverStopped,
}

/// What the caller does about it.
#[derive(Clone, Copy, Debug, PartialEq, Eq, Structural)]
pub enum ConnectionAction {
    /// Start the sender task and the receiver task.
    SpawnTasks,
    /// Report the failure. Nothing else is done.
    GiveUp,
    Nothing,
}

impl Connection {
    /// The state and the action that follow `event`. An event that cannot
    /// come in a state changes nothing.
    pub open spec fn next(self, event: ConnectionEvent) -> (Connection, ConnectionAction) {
        match (self, event) {
            (Connection::Connecting, ConnectionEvent::Connected) => (
                Connection::Established { sending: true, receiving: true },
                ConnectionAction::SpawnTasks,
            ),
            (Connection::Connecting, ConnectionEvent::ConnectFailed) => (
                Connection::Failed,
                ConnectionAction::GiveUp,
            ),
            (Connection::Established { sending, receiving }, ConnectionEvent::SenderStopped) => (
                Connection::Established { sending: false, receiving },
                ConnectionAction::Nothing,
            ),
            (Connection::Established { sending, receiving }, ConnectionEvent::ReceiverStopped) => (
                Connection::Established { sending, receiving: false },
                ConnectionAction::Nothing,
            ),
            _ => (self, ConnectionAction::Nothing),
        }
    }

    /// The state before anything has happened.
    pub fn start() -> (connection: Connection)
        ensures
            connection == Connection::Connecting,
    {
        Connection::Connecting
    }

    /// Takes in `event`.
    pub fn on_event(self, event: ConnectionEvent) -> (step: (Connection, ConnectionAction))
        ensures
            step == self.next(event),
    {
        match self {
            Connection::Connecting => match event {
                ConnectionEvent::Connected => (
                    Connection::Established { sending: true, receiving: true },
                    ConnectionAction::SpawnTasks,
                ),
                ConnectionEvent::ConnectFailed => (Connection::Failed, ConnectionAction::GiveUp),
                _ => (self, ConnectionAction::Nothing),
            },
            Connection::Established { sending, receiving } => match event {
                ConnectionEvent::SenderStopped => (
                    Connection::Established { sending: false, receiving },
                    ConnectionAction::Nothing,
                ),
                ConnectionEvent::ReceiverStopped => (
                    Connection::Established { sending, receiving: false },
                    ConnectionAction::Nothing,
                ),
                _ => (self, ConnectionAction::Nothing),
            },
            Connection::Failed => (self, ConnectionAction::Nothing),
        }
    }
}

/// The connection after `events`, one after the other.
pub open spec fn connection_after(from: Connection, events: Seq<ConnectionEvent>) -> Connection
    decreases events.len(),
{
    if events.len() == 0 {
        from
    } else {
        connection_after(from, events.drop_last()).next(events.last()).0
    }
}

/// No second attempt: whatever happens, the tasks are started at most once,
/// and only by the first thing that happens; after a failed attempt they
/// never are.
pub proof fn lemma_one_attempt(events: Seq<ConnectionEvent>, at: int)
    requires
        0 <= at < events.len(),
        connection_after(Connection::Connecting, events.take(at)).next(events[at]).1
            == ConnectionAction::SpawnTasks,
    ensures
        forall|i: int|
            0 <= i < at ==> connection_after(Connection::Connecting, events.take(i))
                == Connection::Connecting && #[trigger] events[i] != ConnectionEvent::Connected
                && events[i] != ConnectionEvent::ConnectFailed,
        forall|i: int|
            at < i < events.len() ==> connection_after(Connection::Connecting, events.take(i)).next(
                #[trigger] events[i],
            ).1 == ConnectionAction::Nothing,
{
    assert forall|i: int| 0 <= i <= events.len() implies (i <= at ==> #[trigger] connection_after(
        Connection::Connecting,
        events.take(i),
    ) == Connection::Connecting) && (i > at ==> connection_after(
        Connection::Connecting,
        events.take(i),
    ) is Established) by {
        lemma_settled(events, at, i);
    }
    assert forall|i: int| 0 <= i < at implies #[trigger] events[i] != ConnectionEvent::Connected
        && events[i] != ConnectionEvent::ConnectFailed by {
        assert(events.take(i + 1).drop_last() =~= events.take(i));
        assert(events.take(i + 1).last() == events[i]);
        assert(connection_after(Connection::Connecting, events.take(i + 1))
            == Connection::Connecting);
    }
}

proof fn lemma_settled(events: Seq<ConnectionEvent>, at: int, i: int)
    requires
        0 <= at < events.len(),
        0 <= i <= events.len(),
        connection_after(Connection::Connecting, events.take(at)).next(events[at]).1
            == ConnectionAction::SpawnTasks,
    ensures
        i <= at ==> connection_after(Connection::Connecting, events.take(i))
            == Connection::Connecting,
        i > at ==> connection_after(Connection::Connecting, events.take(i)) is Established,
    decreases (if i <= at { at - i } else { i - at }),
{
    if i < at {
        lemma_settled(events, at, i + 1);
        assert(events.take(i + 1).drop_last() =~= events.take(i));
    } else if i > at {
        lemma_settled(events, at, i - 1);
        assert(events.take(i).drop_last() =~= events.take(i - 1));
        assert(events.take(i).last() == events[i - 1]);
    }
}

/// The two directions fail apart: the end of one task leaves the other as
/// it was.
pub proof fn lemma_directions_independent(sending: bool, receiving: bool)
    ensures
        (Connection::Established { sending, receiving }).next(ConnectionEvent::SenderStopped).0
            == (Connection::Established { sending: false, receiving }),
        (Connection::Established { sending, receiving }).next(ConnectionEvent::ReceiverStopped).0
            == (Connection::Established { sending, receiving: false }),
{
}

} // verus!
