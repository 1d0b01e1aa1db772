use peer_sync::channel::{connect_multiplayer, TransportEnds};
use peer_sync::connection::{
    ws_receiver, ws_sender, Frame, Received, ReceiverEvent, SenderAction, SenderEvent,
};
use peer_sync::lobby::LobbyInfo;
use peer_sync::message::WSMessages;
use peer_sync::reconcile::{handle_message, handle_sync, process_inbound, SyncEvent};
use peer_sync::wire::{DecodeError, QuatBits, Synchronizer, Vec3Bits};
use std::cell::Cell;

fn forward(ends: &TransportEnds, message: WSMessages) -> Result<(), WSMessages> {
    ends.to_us.send(message).map_err(|e| e.0)
}

fn state(id: i64, x: f32) -> Synchronizer {
    Synchronizer {
        id,
        pos: Vec3Bits { x: x.to_bits(), y: 2.0f32.to_bits(), z: 3.0f32.to_bits() },
        rot: QuatBits::identity(),
        velocity: Vec3Bits::zero(),
        speed: 5.0f32.to_bits(),
        jump: false,
        animation_index: 3,
    }
}

fn sync(id: i64, x: f32) -> WSMessages {
    WSMessages::Sync(state(id, x).to_bytes())
}

#[test]
fn first_record_of_a_peer_spawns() {
    let mut lobby = LobbyInfo::new();
    let event = handle_message(&mut lobby, &sync(42, 1.0), &|_s: &Synchronizer| 900);
    assert_eq!(event, SyncEvent::Spawned { handle: 900, state: state(42, 1.0) });
    assert_eq!(lobby.get(42), Some(900));
    assert_eq!(lobby.len(), 1);
}

#[test]
fn spawn_sees_the_decoded_record() {
    let mut lobby = LobbyInfo::new();
    let seen = Cell::new(None);
    handle_message(&mut lobby, &sync(42, 1.0), &|s: &Synchronizer| {
        seen.set(Some(*s));
        1
    });
    assert_eq!(seen.get(), Some(state(42, 1.0)));
}

#[test]
fn later_record_of_a_peer_updates() {
    let mut lobby = LobbyInfo::new();
    handle_message(&mut lobby, &sync(42, 1.0), &|_s: &Synchronizer| 900);
    let calls = Cell::new(0u32);
    let event = handle_message(&mut lobby, &sync(42, 8.0), &|_s: &Synchronizer| {
        calls.set(calls.get() + 1);
        901
    });
    assert_eq!(event, SyncEvent::Updated { handle: 900, state: state(42, 8.0) });
    assert_eq!(calls.get(), 0);
    assert_eq!(lobby.get(42), Some(900));
    assert_eq!(lobby.len(), 1);
}

#[test]
fn short_record_is_reported_and_changes_nothing() {
    let mut lobby = LobbyInfo::new();
    let mut bytes = state(42, 1.0).to_bytes();
    bytes.truncate(56);
    let event = handle_message(&mut lobby, &WSMessages::Sync(bytes), &|_s: &Synchronizer| 900);
    assert_eq!(event, SyncEvent::Undecodable(DecodeError::InsufficientBytes));
    assert_eq!(lobby.len(), 0);
}

#[test]
fn other_messages_are_ignored() {
    let mut lobby = LobbyInfo::new();
    let bytes = state(42, 1.0).to_bytes();
    let spawn = |_s: &Synchronizer| 900;
    assert_eq!(
        handle_message(&mut lobby, &WSMessages::Connected(bytes.clone()), &spawn),
        SyncEvent::Ignored
    );
    assert_eq!(
        handle_message(&mut lobby, &WSMessages::Disconnected(bytes), &spawn),
        SyncEvent::Ignored
    );
    assert_eq!(
        handle_message(&mut lobby, &WSMessages::Message(String::from("hello")), &spawn),
        SyncEvent::Ignored
    );
    assert_eq!(lobby.len(), 0);
}

#[test]
fn two_records_of_one_new_peer_in_one_tick_spawn_once() {
    let mut lobby = LobbyInfo::new();
    let spawned = Cell::new(0u64);
    let spawn = |_s: &Synchronizer| {
        spawned.set(spawned.get() + 1);
        500 + spawned.get()
    };
    let inbound = vec![sync(42, 1.0), sync(42, 2.0)];
    let events = process_inbound(&mut lobby, &inbound, &spawn);
    assert_eq!(
        events,
        vec![
            SyncEvent::Spawned { handle: 501, state: state(42, 1.0) },
            SyncEvent::Updated { handle: 501, state: state(42, 2.0) },
        ]
    );
    assert_eq!(spawned.get(), 1);
    assert_eq!(lobby.len(), 1);
    assert_eq!(lobby.get(42), Some(501));
}

#[test]
fn two_records_of_one_new_peer_in_two_ticks_spawn_once() {
    let mut lobby = LobbyInfo::new();
    let spawned = Cell::new(0u64);
    let spawn = |_s: &Synchronizer| {
        spawned.set(spawned.get() + 1);
        500 + spawned.get()
    };
    let first = process_inbound(&mut lobby, &vec![sync(42, 1.0)], &spawn);
    let second = process_inbound(&mut lobby, &vec![sync(42, 2.0)], &spawn);
    assert_eq!(first, vec![SyncEvent::Spawned { handle: 501, state: state(42, 1.0) }]);
    assert_eq!(second, vec![SyncEvent::Updated { handle: 501, state: state(42, 2.0) }]);
    assert_eq!(spawned.get(), 1);
    assert_eq!(lobby.len(), 1);
}

#[test]
fn a_bad_message_does_not_stop_the_batch() {
    let mut lobby = LobbyInfo::new();
    let inbound = vec![
        WSMessages::Sync(vec![1, 2, 3]),
        sync(1, 1.0),
        WSMessages::Message(String::from("noise")),
        sync(2, 1.0),
        WSMessages::Sync(Vec::new()),
        sync(1, 4.0),
    ];
    let next = Cell::new(10u64);
    let events = process_inbound(&mut lobby, &inbound, &|_s: &Synchronizer| {
        next.set(next.get() + 1);
        next.get()
    });
    assert_eq!(
        events,
        vec![
            SyncEvent::Undecodable(DecodeError::InsufficientBytes),
            SyncEvent::Spawned { handle: 11, state: state(1, 1.0) },
            SyncEvent::Ignored,
            SyncEvent::Spawned { handle: 12, state: state(2, 1.0) },
            SyncEvent::Undecodable(DecodeError::InsufficientBytes),
            SyncEvent::Updated { handle: 11, state: state(1, 4.0) },
        ]
    );
    assert_eq!(lobby.len(), 2);
}

#[test]
fn empty_batch_gives_no_event() {
    let mut lobby = LobbyInfo::new();
    let events = process_inbound(&mut lobby, &Vec::new(), &|_s: &Synchronizer| 1);
    assert!(events.is_empty());
    assert_eq!(lobby.len(), 0);
}

#[test]
fn one_tick_takes_all_that_is_queued() {
    let (mut channels, mut lobby, ends) = connect_multiplayer();
    let n: usize = 1000;
    for i in 0..n {
        assert_eq!(forward(&ends, sync((i % 10) as i64, i as f32)), Ok(()));
    }
    let next = Cell::new(0u64);
    let spawn = |_s: &Synchronizer| {
        next.set(next.get() + 1);
        next.get()
    };
    let events = handle_sync(&mut channels, &mut lobby, &spawn);
    assert_eq!(events.len(), n);
    for (i, event) in events.iter().enumerate() {
        let peer = (i % 10) as i64;
        if i < 10 {
            assert_eq!(
                *event,
                SyncEvent::Spawned { handle: i as u64 + 1, state: state(peer, i as f32) }
            );
        } else {
            assert_eq!(
                *event,
                SyncEvent::Updated { handle: peer as u64 + 1, state: state(peer, i as f32) }
            );
        }
    }
    assert_eq!(lobby.len(), 10);
    assert_eq!(next.get(), 10);
    assert!(handle_sync(&mut channels, &mut lobby, &spawn).is_empty());
}

#[test]
fn a_tick_with_nothing_queued_does_nothing() {
    let (mut channels, mut lobby, _ends) = connect_multiplayer();
    let events = handle_sync(&mut channels, &mut lobby, &|_s: &Synchronizer| 1);
    assert!(events.is_empty());
    assert_eq!(lobby.len(), 0);
}

#[test]
fn end_to_end_through_the_queues() {
    let published = Synchronizer {
        id: 42,
        pos: Vec3Bits { x: 1.0f32.to_bits(), y: 2.0f32.to_bits(), z: 3.0f32.to_bits() },
        rot: QuatBits::identity(),
        velocity: Vec3Bits::zero(),
        speed: 5.0f32.to_bits(),
        jump: false,
        animation_index: 3,
    };
    // the sending peer: the record goes into the outgoing queue, and the
    // sender task takes it out and writes it as one binary frame
    let (channels_a, _lobby_a, mut ends_a) = connect_multiplayer();
    assert_eq!(published.sync(&channels_a), Ok(()));
    let queued = ends_a.to_others.try_recv().unwrap();
    let frame = match ws_sender(SenderEvent::Dequeued(queued)) {
        SenderAction::Write(frame) => frame,
        other => panic!("unexpected action {:?}", other),
    };
    assert_eq!(frame, Frame::Binary(published.to_bytes()));
    // the receiving peer: the receiver task puts the frame's bytes into the
    // inbound queue, undecoded
    let (mut channels_b, mut lobby_b, ends_b) = connect_multiplayer();
    assert!(!lobby_b.contains(42));
    assert_eq!(ws_receiver(&ends_b.to_us, ReceiverEvent::Arrived(frame)), Received::Forwarded);
    let events = handle_sync(&mut channels_b, &mut lobby_b, &|_s: &Synchronizer| 77);
    assert_eq!(events, vec![SyncEvent::Spawned { handle: 77, state: published }]);
    match events[0] {
        SyncEvent::Spawned { state, .. } => {
            assert_eq!(state.id, 42);
            assert_eq!(f32::from_bits(state.pos.x), 1.0);
            assert_eq!(f32::from_bits(state.pos.y), 2.0);
            assert_eq!(f32::from_bits(state.pos.z), 3.0);
            assert_eq!(state.rot, QuatBits::identity());
            assert_eq!(state.velocity, Vec3Bits::zero());
            assert_eq!(f32::from_bits(state.speed), 5.0);
            assert!(!state.jump);
            assert_eq!(state.animation_index, 3);
        }
        _ => unreachable!(),
    }
    assert!(lobby_b.contains(42));
    assert_eq!(lobby_b.get(42), Some(77));
    assert_eq!(lobby_b.len(), 1);
}
