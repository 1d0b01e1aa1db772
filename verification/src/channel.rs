//! The two queues between the simulation and the connection tasks.
//!
//! Both are unbounded queues of `tokio`. The simulation sends into one and
//! takes from the other, and never waits on either. What the other side has
//! put into a queue, or whether it still listens, is not known here: the
//! functions of this module promise only what holds whatever the queue does.

use vstd::prelude::*;
use tokio::sync::mpsc::{UnboundedReceiver, UnboundedSender};
use crate::lobby::LobbyInfo;
use crate::message::WSMessages;

verus! {

/// `tokio::sync::mpsc::UnboundedSender`, the sending end of a queue. It is
/// opaque here: a value is held and handed on, and nothing is known of it.
#[verifier::external_type_specification]
#[verifier::external_body]
#[verifier::reject_recursive_types(T)]
pub struct ExUnboundedSender<T>(UnboundedSender<T>);

/// `tokio::sync::mpsc::UnboundedReceiver`, the receiving end of a queue. It
/// is opaque here: a value is held and handed on, and nothing is known of
/// it.
#[verifier::external_type_specification]
#[verifier::external_body]
#[verifier::reject_recursive_types(T)]
pub struct ExUnboundedReceiver<T>(UnboundedReceiver<T>);

/// The simulation's ends of the two queues.
pub struct WSMessageChannels {
    /// What the connection has received, waiting for the next tick.
    pub incomming: UnboundedReceiver<WSMessages>,
    /// What the simulation wants sent.
    pub outgoing: UnboundedSender<WSMessages>,
}

/// The connection tasks' ends of the two queues.
pub struct TransportEnds {
    /// What the simulation wants sent, for the sender task to take.
    pub to_others: UnboundedReceiver<WSMessages>,
    /// Where the receiver task puts what arrived.
    pub to_us: UnboundedSender<WSMessages>,
}

/// `tokio::sync::mpsc::unbounded_channel`: a new queue, as its sending and
/// its receiving end. Nothing is claimed of it.
#[verifier::external_body]
fn unbounded_channel() -> (ends: (UnboundedSender<WSMessages>, UnboundedReceiver<WSMessages>)) {
    tokio::sync::mpsc::unbounded_channel()
}

/// `UnboundedSender::send`: puts `message` into the queue without waiting.
/// When the receiving end is closed or gone the call fails, and the error
/// holds the message that was passed in; that message is handed back.
#[verifier::external_body]
pub(crate) fn send(tx: &UnboundedSender<WSMessages>, message: WSMessages) -> (result: Result<(), WSMessages>)
    ensures
        result matches Err(unsent) ==> unsent == message,
{
    tx.send(message).map_err(|e| e.0)
}

/// `UnboundedReceiver::try_recv`: takes the next message if one is there,
/// without waiting. An empty queue and a queue whose senders are gone both
/// give `None`. Nothing is claimed of the message.
#[verifier::external_body]
fn try_recv(rx: &mut UnboundedReceiver<WSMessages>) -> (next: Option<WSMessages>) {
    rx.try_recv().ok()
}

/// `UnboundedReceiver::len`: the number of messages in the queue at the
/// moment of the call. Nothing is claimed of it.
#[verifier::external_body]
fn queued(rx: &UnboundedReceiver<WSMessages>) -> (n: usize) {
    rx.len()
}

/// Deals out the four ends of two queues. `to_others` is the queue of what
/// the simulation wants sent: its sending end goes to the simulation and its
/// receiving end to the connection tasks. `to_us` is the queue of what the
/// connection has received: its sending end goes to the connection tasks and
/// its receiving end to the simulation.
pub fn deal_ends(
    to_others: (UnboundedSender<WSMessages>, UnboundedReceiver<WSMessages>),
    to_us: (UnboundedSender<WSMessages>, UnboundedReceiver<WSMessages>),
) -> (ends: (WSMessageChannels, TransportEnds))
    ensures
        ends.0.outgoing == to_others.0,
        ends.1.to_others == to_others.1,
        ends.1.to_us == to_us.0,
        ends.0.incomming == to_us.1,
{
    let (to_others_tx, to_others_rx) = to_others;
    let (to_us_tx, to_us_rx) = to_us;
    (
        WSMessageChannels { incomming: to_us_rx, outgoing: to_others_tx },
        TransportEnds { to_others: to_others_rx, to_us: to_us_tx },
    )
}

/// Takes in what one look at the inbound queue gave. A message goes behind
/// those already taken, and the answer is to look again; an empty queue
/// changes nothing, and the answer is to stop.
pub fn take_in(inbound: &mut Vec<WSMessages>, next: Option<WSMessages>) -> (again: bool)
    ensures
        again == next.is_some(),
        final(inbound)@ == (match next {
            Some(message) => old(inbound)@.push(message),
            None => old(inbound)@,
        }),
{
    match next {
        Some(message) => {
            inbound.push(message);
            true
        },
        None => false,
    }
}

/// Sets up a session: the two queues, each split into the simulation's end
/// and the connection tasks' end, and a registry that knows no peer.
pub fn connect_multiplayer() -> (session: (WSMessageChannels, LobbyInfo, TransportEnds))
    ensures
        session.1@ == Map::<i64, u64>::empty(),
{
    let (channels, ends) = deal_ends(unbounded_channel(), unbounded_channel());
    (channels, LobbyInfo::new(), ends)
}

impl WSMessageChannels {
    /// Hands `message` to the connection. Never waits. When the connection
    /// no longer listens, the message comes back unsent.
    pub fn send(&self, message: WSMessages) -> (result: Result<(), WSMessages>)
        ensures
            result matches Err(unsent) ==> unsent == message,
    {
        send(&self.outgoing, message)
    }

    /// Takes what the connection has received so far, oldest first, without
    /// waiting. It asks the queue once how much it holds and takes at most
    /// that many, so a connection that keeps delivering cannot hold the tick.
    /// The outgoing end is not touched.
    pub fn drain(&mut self) -> (inbound: Vec<WSMessages>)
        ensures
            final(self).outgoing == old(self).outgoing,
    {
        let waiting: usize = queued(&self.incomming);
        let mut inbound: Vec<WSMessages> = Vec::new();
        let mut taken: usize = 0;
        while taken < waiting
            invariant
                taken <= waiting,
                self.outgoing == old(self).outgoing,
            decreases waiting - taken,
        {
            let next: Option<WSMessages> = try_recv(&mut self.incomming);
            if !take_in(&mut inbound, next) {
                break ;
            }
            taken = taken + 1;
        }
        inbound
    }
}

} // verus!
