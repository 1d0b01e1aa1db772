//! The per-tick intake of what the connection has received.
//!
//! Every message is looked at once, in the order of arrival. A record from
//! a peer not yet known makes the caller create an entity, which is entered
//! in the registry at once; a record from a known peer is passed on with the
//! handle of its entity; anything else changes nothing. A message that does
//! not decode is reported and the intake goes on with the next.

use vstd::prelude::*;
use crate::channel::WSMessageChannels;
use crate::lobby::LobbyInfo;
use crate::message::WSMessages;
use crate::wire::{lemma_round_trip, DecodeError, Synchronizer};

verus! {

/// What became of one inbound message.
#[derive(Clone, Copy, Debug, PartialEq, Eq, Structural)]
pub enum SyncEvent {
    /// The message is no record: nothing was done.
    Ignored,
    /// The message is a record that does not decode: it was dropped.
    Undecodable(DecodeError),
    /// The record is the first of its peer: an entity was made for it, and
    /// `handle` was entered in the registry.
    Spawned { handle: u64, state: Synchronizer },
    /// The record is of a known peer, whose entity is `handle`.
    Updated { handle: u64, state: Synchronizer },
}

/// The registry after `event`.
pub open spec fn apply_event(lobby: Map<i64, u64>, event: SyncEvent) -> Map<i64, u64> {
    match event {
        SyncEvent::Spawned { handle, state } => lobby.insert(state.id, handle),
        SyncEvent::Updated { .. } | SyncEvent::Undecodable(_) | SyncEvent::Ignored => lobby,
    }
}

/// The registry after `events`, one after the other.
pub open spec fn lobby_after(lobby: Map<i64, u64>, events: Seq<SyncEvent>) -> Map<i64, u64>
    decreases events.len(),
{
    if events.len() == 0 {
        lobby
    } else {
        apply_event(lobby_after(lobby, events.drop_last()), events.last())
    }
}

/// Whether `event` can happen to the registry `lobby`: only an unknown peer
/// is spawned, and a known peer is updated under its own handle.
pub open spec fn follows(lobby: Map<i64, u64>, event: SyncEvent) -> bool {
    match event {
        SyncEvent::Spawned { handle, state } => !lobby.contains_key(state.id),
        SyncEvent::Updated { handle, state } => lobby.contains_key(state.id) && lobby[state.id]
            == handle,
        SyncEvent::Undecodable(_) | SyncEvent::Ignored => true,
    }
}

/// Whether `event` is what the registry `lobby` makes of `message`. The
/// handle of a spawned entity is the caller's to choose.
pub open spec fn answers(lobby: Map<i64, u64>, message: WSMessages, event: SyncEvent) -> bool {
    match message {
        WSMessages::Sync(bytes) => match Synchronizer::decode(bytes@) {
            Err(error) => event == SyncEvent::Undecodable(error),
            Ok(state) => if lobby.contains_key(state.id) {
                event == (SyncEvent::Updated { handle: lobby[state.id], state })
            } else {
                event matches SyncEvent::Spawned { handle, state: spawned } && spawned == state
            },
        },
        WSMessages::Message(_) | WSMessages::Connected(_) | WSMessages::Disconnected(_) => {
            event == SyncEvent::Ignored
        },
    }
}

/// Whether `events` can happen one after the other, starting from `lobby`.
pub open spec fn follow_on(lobby: Map<i64, u64>, events: Seq<SyncEvent>) -> bool {
    forall|i: int|
        0 <= i < events.len() ==> follows(lobby_after(lobby, events.take(i)), #[trigger] events[i])
}

/// Whether `spawn` may be called for the record that `message` holds, if it
/// holds one.
pub open spec fn can_spawn<F: Fn(&Synchronizer) -> u64>(message: WSMessages, spawn: F) -> bool {
    message matches WSMessages::Sync(bytes) ==> (Synchronizer::decode(bytes@) matches Ok(state)
        ==> call_requires(spawn, (&state,)))
}

/// Takes in one message. `spawn` is called only for the first record of a
/// peer; it makes the entity that will stand for the peer and gives its
/// handle.
pub fn handle_message<F: Fn(&Synchronizer) -> u64>(
    lobby: &mut LobbyInfo,
    message: &WSMessages,
    spawn: &F,
) -> (event: SyncEvent)
    requires
        can_spawn(*message, *spawn),
    ensures
        answers(old(lobby)@, *message, event),
        follows(old(lobby)@, event),
        final(lobby)@ == apply_event(old(lobby)@, event),
        event matches SyncEvent::Spawned { handle, state } ==> call_ensures(
            *spawn,
            (&state,),
            handle,
        ),
{
    match message {
        WSMessages::Sync(bytes) => {
            match Synchronizer::from_bytes(bytes.as_slice()) {
                Err(error) => SyncEvent::Undecodable(error),
                Ok(state) => {
                    let known: bool = lobby.contains(state.id);
                    let make = || -> (made: u64)
                        requires
                            call_requires(*spawn, (&state,)),
                        ensures
                            call_ensures(*spawn, (&state,), made),
                        { spawn(&state) };
                    let handle: u64 = lobby.entry_or_create(state.id, make);
                    if known {
                        SyncEvent::Updated { handle, state }
                    } else {
                        SyncEvent::Spawned { handle, state }
                    }
                },
            }
        },
        WSMessages::Message(_) | WSMessages::Connected(_) | WSMessages::Disconnected(_) => {
            SyncEvent::Ignored
        },
    }
}

/// Whether `events` are what the registry `lobby` makes of `inbound`,
/// message by message, each against the registry as the events before it
/// have left it.
pub open spec fn answers_all(
    lobby: Map<i64, u64>,
    inbound: Seq<WSMessages>,
    events: Seq<SyncEvent>,
) -> bool {
    &&& events.len() == inbound.len()
    &&& forall|i: int|
        0 <= i < events.len() ==> answers(
            lobby_after(lobby, events.take(i)),
            inbound[i],
            #[trigger] events[i],
        )
}

/// Whether every handle that `events` say was spawned is one that `spawn`
/// can give for the record spawned.
pub open spec fn spawned_by<F: Fn(&Synchronizer) -> u64>(events: Seq<SyncEvent>, spawn: F) -> bool {
    forall|i: int|
        0 <= i < events.len() ==> (#[trigger] events[i] matches SyncEvent::Spawned { handle, state }
            ==> call_ensures(spawn, (&state,), handle))
}

/// Takes in a batch of messages, oldest first: one event for each message,
/// none left for a later tick.
pub fn process_inbound<F: Fn(&Synchronizer) -> u64>(
    lobby: &mut LobbyInfo,
    inbound: &Vec<WSMessages>,
    spawn: &F,
) -> (events: Vec<SyncEvent>)
    requires
        forall|i: int| 0 <= i < inbound@.len() ==> can_spawn(#[trigger] inbound@[i], *spawn),
    ensures
        answers_all(old(lobby)@, inbound@, events@),
        follow_on(old(lobby)@, events@),
        spawned_by(events@, *spawn),
        final(lobby)@ == lobby_after(old(lobby)@, events@),
{
    let mut events: Vec<SyncEvent> = Vec::new();
    let mut at: usize = 0;
    while at < inbound.len()
        invariant
            at <= inbound@.len(),
            events@.len() == at,
            forall|i: int| 0 <= i < inbound@.len() ==> can_spawn(#[trigger] inbound@[i], *spawn),
            forall|i: int|
                0 <= i < at ==> answers(
                    lobby_after(old(lobby)@, events@.take(i)),
                    inbound@[i],
                    #[trigger] events@[i],
                ),
            follow_on(old(lobby)@, events@),
            spawned_by(events@, *spawn),
            lobby@ == lobby_after(old(lobby)@, events@),
        decreases inbound@.len() - at,
    {
        let ghost before = events@;
        let event: SyncEvent = handle_message(lobby, &inbound[at], spawn);
        events.push(event);
        proof {
            assert(events@.drop_last() =~= before);
            assert(events@.take(at as int) =~= before);
            assert forall|i: int| 0 <= i < at implies events@.take(i) == before.take(i) by {
                assert(events@.take(i) =~= before.take(i));
            }
        }
        at = at + 1;
    }
    events
}

/// One tick of the intake: takes what the connection has received so far
/// and handles all of it.
pub fn handle_sync<F: Fn(&Synchronizer) -> u64>(
    channels: &mut WSMessageChannels,
    lobby: &mut LobbyInfo,
    spawn: &F,
) -> (events: Vec<SyncEvent>)
    requires
        forall|state: Synchronizer| call_requires(*spawn, (&state,)),
    ensures
        exists|inbound: Seq<WSMessages>| answers_all(old(lobby)@, inbound, events@),
        follow_on(old(lobby)@, events@),
        spawned_by(events@, *spawn),
        final(lobby)@ == lobby_after(old(lobby)@, events@),
        final(channels).outgoing == old(channels).outgoing,
{
    let inbound: Vec<WSMessages> = channels.drain();
    let events: Vec<SyncEvent> = process_inbound(lobby, &inbound, spawn);
    assert(answers_all(old(lobby)@, inbound@, events@));
    events
}

/// What one peer encodes, another takes in unchanged: a message that holds
/// the bytes of a record is never dropped, and the event made of it carries
/// the record itself, as a spawn when its peer is new and as an update of
/// the peer's own entity when it is known.
pub proof fn lemma_record_arrives(
    lobby: Map<i64, u64>,
    message: WSMessages,
    event: SyncEvent,
    record: Synchronizer,
)
    requires
        message matches WSMessages::Sync(bytes) && bytes@ == record.wire(),
        answers(lobby, message, event),
    ensures
        !lobby.contains_key(record.id) ==> (event matches SyncEvent::Spawned { handle, state }
            && state == record),
        lobby.contains_key(record.id) ==> event == (SyncEvent::Updated {
            handle: lobby[record.id],
            state: record,
        }),
{
    lemma_round_trip(record, Seq::empty());
    assert(record.wire() + Seq::<u8>::empty() =~= record.wire());
}

/// Of two records of one peer that the registry does not know, the first
/// spawns and the second updates under the handle that the first was given.
/// The registry gains that one entry and no other.
pub proof fn lemma_lobby_dedup(
    lobby: Map<i64, u64>,
    first: WSMessages,
    second: WSMessages,
    e1: SyncEvent,
    e2: SyncEvent,
)
    requires
        first matches WSMessages::Sync(b1) && second matches WSMessages::Sync(b2)
            && Synchronizer::decode(b1@) matches Ok(s1) && Synchronizer::decode(b2@) matches Ok(s2)
            && s1.id == s2.id && !lobby.contains_key(s1.id),
        answers(lobby, first, e1),
        answers(apply_event(lobby, e1), second, e2),
    ensures
        e1 matches SyncEvent::Spawned { handle, state } && e2 matches SyncEvent::Updated {
            handle: again,
            state: later,
        } && again == handle && later.id == state.id && apply_event(apply_event(lobby, e1), e2)
            == lobby.insert(state.id, handle) && apply_event(apply_event(lobby, e1), e2).dom()
            == lobby.dom().insert(state.id),
{
}

/// A tick after a tick is one longer tick: the registry after two runs of
/// events is the registry after the two runs laid end to end, and what could
/// happen in the two runs can happen in the long one.
pub proof fn lemma_ticks_compose(lobby: Map<i64, u64>, one: Seq<SyncEvent>, two: Seq<SyncEvent>)
    ensures
        lobby_after(lobby_after(lobby, one), two) == lobby_after(lobby, one + two),
        follow_on(lobby, one) && follow_on(lobby_after(lobby, one), two) ==> follow_on(
            lobby,
            one + two,
        ),
    decreases two.len(),
{
    if two.len() == 0 {
        assert(one + two =~= one);
    } else {
        lemma_ticks_compose(lobby, one, two.drop_last());
        assert((one + two).drop_last() =~= one + two.drop_last());
        assert((one + two).last() == two.last());
    }
    if follow_on(lobby, one) && follow_on(lobby_after(lobby, one), two) {
        assert forall|i: int| 0 <= i < (one + two).len() implies follows(
            lobby_after(lobby, (one + two).take(i)),
            #[trigger] (one + two)[i],
        ) by {
            if i < one.len() {
                assert((one + two).take(i) =~= one.take(i));
                assert((one + two)[i] == one[i]);
            } else {
                let j = i - one.len();
                assert((one + two).take(i) =~= one + two.take(j));
                lemma_ticks_compose(lobby, one, two.take(j));
                assert((one + two)[i] == two[j]);
                assert(follows(lobby_after(lobby_after(lobby, one), two.take(j)), two[j]));
            }
        }
    }
}

/// The registry after one more event is the registry before it with that
/// event applied.
proof fn lemma_unfold_last(lobby: Map<i64, u64>, events: Seq<SyncEvent>, at: int)
    requires
        0 <= at < events.len(),
    ensures
        lobby_after(lobby, events.take(at + 1)) == apply_event(
            lobby_after(lobby, events.take(at)),
            events[at],
        ),
{
    assert(events.take(at + 1).drop_last() =~= events.take(at));
    assert(events.take(at + 1).last() == events[at]);
}

/// Nothing leaves the registry and no handle changes: what the registry
/// holds after the first `early` events, it holds after the first `late`.
pub proof fn lemma_registry_grows(
    lobby: Map<i64, u64>,
    events: Seq<SyncEvent>,
    early: int,
    late: int,
)
    requires
        follow_on(lobby, events),
        0 <= early <= late <= events.len(),
    ensures
        lobby_after(lobby, events.take(early)).submap_of(lobby_after(lobby, events.take(late))),
    decreases late - early,
{
    if early < late {
        let first = lobby_after(lobby, events.take(early));
        let before = lobby_after(lobby, events.take(late - 1));
        let after = lobby_after(lobby, events.take(late));
        lemma_registry_grows(lobby, events, early, late - 1);
        assert(first.submap_of(before));
        lemma_unfold_last(lobby, events, late - 1);
        assert(after == apply_event(before, events[late - 1]));
        assert(follows(before, events[late - 1]));
        assert(before.submap_of(after));
        assert forall|id: i64| #[trigger] first.dom().contains(id) implies after.dom().contains(id)
            && first[id] == after[id] by {
            assert(before.dom().contains(id) && first[id] == before[id]);
        }
    }
}

/// Over any number of messages and any number of ticks, no peer is spawned
/// twice, and once a peer is spawned every later update of it goes to the
/// entity that was spawned for it.
pub proof fn lemma_one_entity_per_peer(
    lobby: Map<i64, u64>,
    events: Seq<SyncEvent>,
    early: int,
    late: int,
)
    requires
        follow_on(lobby, events),
        0 <= early < late < events.len(),
        events[early] is Spawned,
    ensures
        events[late] matches SyncEvent::Spawned { handle, state } ==> state.id
            != events[early]->Spawned_state.id,
        events[late] matches SyncEvent::Updated { handle, state } ==> (state.id
            == events[early]->Spawned_state.id ==> handle == events[early]->Spawned_handle),
{
    let id = events[early]->Spawned_state.id;
    lemma_unfold_last(lobby, events, early);
    assert(lobby_after(lobby, events.take(early + 1)).contains_key(id));
    lemma_registry_grows(lobby, events, early + 1, late);
    assert(lobby_after(lobby, events.take(late)).contains_key(id));
    assert(follows(lobby_after(lobby, events.take(late)), events[late]));
}

} // verus!
