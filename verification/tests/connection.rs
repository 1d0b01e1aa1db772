use peer_sync::channel::connect_multiplayer;
use peer_sync::connection::{
    inbound_message, outbound_frame, receiver_step, ws_receiver, ws_sender, Connection,
    ConnectionAction, ConnectionEvent, Frame, Received, ReceiverAction, ReceiverEvent,
    SenderAction, SenderEvent,
};
use peer_sync::message::WSMessages;

#[test]
fn record_goes_out_as_a_binary_frame() {
    assert_eq!(outbound_frame(WSMessages::Sync(vec![1, 2, 3])), Frame::Binary(vec![1, 2, 3]));
    assert_eq!(outbound_frame(WSMessages::Sync(Vec::new())), Frame::Binary(Vec::new()));
}

#[test]
fn other_messages_go_out_as_a_small_ping() {
    assert_eq!(outbound_frame(WSMessages::Connected(vec![9, 9])), Frame::Ping(vec![0]));
    assert_eq!(outbound_frame(WSMessages::Disconnected(vec![9])), Frame::Ping(vec![0]));
    assert_eq!(outbound_frame(WSMessages::Message(String::from("hello"))), Frame::Ping(vec![0]));
}

#[test]
fn binary_frame_comes_in_as_a_record() {
    assert_eq!(inbound_message(Frame::Binary(vec![7, 8])), Some(WSMessages::Sync(vec![7, 8])));
    assert_eq!(inbound_message(Frame::Binary(Vec::new())), Some(WSMessages::Sync(Vec::new())));
}

#[test]
fn other_frames_bring_nothing() {
    assert_eq!(inbound_message(Frame::Text(String::from("x"))), None);
    assert_eq!(inbound_message(Frame::Ping(vec![1])), None);
    assert_eq!(inbound_message(Frame::Pong(vec![1])), None);
    assert_eq!(inbound_message(Frame::Close), None);
    assert_eq!(inbound_message(Frame::Other), None);
}

#[test]
fn sender_writes_each_message_and_stops_on_failure() {
    assert_eq!(
        ws_sender(SenderEvent::Dequeued(WSMessages::Sync(vec![5]))),
        SenderAction::Write(Frame::Binary(vec![5]))
    );
    assert_eq!(
        ws_sender(SenderEvent::Dequeued(WSMessages::Message(String::new()))),
        SenderAction::Write(Frame::Ping(vec![0]))
    );
    assert_eq!(ws_sender(SenderEvent::Written), SenderAction::Dequeue);
    assert_eq!(ws_sender(SenderEvent::WriteFailed), SenderAction::Stop);
    assert_eq!(ws_sender(SenderEvent::QueueClosed), SenderAction::Stop);
}

#[test]
fn receiver_forwards_binary_and_stops_on_error() {
    assert_eq!(
        receiver_step(ReceiverEvent::Arrived(Frame::Binary(vec![1]))),
        ReceiverAction::Forward(WSMessages::Sync(vec![1]))
    );
    assert_eq!(receiver_step(ReceiverEvent::Arrived(Frame::Ping(vec![1]))), ReceiverAction::Skip);
    assert_eq!(
        receiver_step(ReceiverEvent::Arrived(Frame::Text(String::from("t")))),
        ReceiverAction::Skip
    );
    assert_eq!(receiver_step(ReceiverEvent::Failed), ReceiverAction::Stop);
    assert_eq!(receiver_step(ReceiverEvent::Ended), ReceiverAction::Stop);
}

#[test]
fn receiver_task_fills_the_inbound_queue_undecoded() {
    let (mut channels, _lobby, ends) = connect_multiplayer();
    assert_eq!(
        ws_receiver(&ends.to_us, ReceiverEvent::Arrived(Frame::Binary(vec![1, 2]))),
        Received::Forwarded
    );
    assert_eq!(ws_receiver(&ends.to_us, ReceiverEvent::Arrived(Frame::Pong(vec![3]))), Received::Skipped);
    assert_eq!(
        ws_receiver(&ends.to_us, ReceiverEvent::Arrived(Frame::Binary(vec![4]))),
        Received::Forwarded
    );
    assert_eq!(ws_receiver(&ends.to_us, ReceiverEvent::Failed), Received::Stopped);
    assert_eq!(channels.drain(), vec![WSMessages::Sync(vec![1, 2]), WSMessages::Sync(vec![4])]);
}

#[test]
fn receiver_task_survives_a_closed_queue() {
    let (channels, _lobby, ends) = connect_multiplayer();
    drop(channels);
    assert_eq!(
        ws_receiver(&ends.to_us, ReceiverEvent::Arrived(Frame::Binary(vec![1]))),
        Received::Dropped
    );
    assert_eq!(ws_receiver(&ends.to_us, ReceiverEvent::Arrived(Frame::Close)), Received::Skipped);
    assert_eq!(ws_receiver(&ends.to_us, ReceiverEvent::Ended), Received::Stopped);
}

#[test]
fn connection_that_opens_starts_both_tasks() {
    let c = Connection::start();
    assert_eq!(c, Connection::Connecting);
    assert_eq!(
        c.on_event(ConnectionEvent::Connected),
        (Connection::Established { sending: true, receiving: true }, ConnectionAction::SpawnTasks)
    );
}

#[test]
fn connection_that_fails_stays_failed() {
    let (c, action) = Connection::start().on_event(ConnectionEvent::ConnectFailed);
    assert_eq!((c, action), (Connection::Failed, ConnectionAction::GiveUp));
    for event in [
        ConnectionEvent::Connected,
        ConnectionEvent::ConnectFailed,
        ConnectionEvent::SenderStopped,
        ConnectionEvent::ReceiverStopped,
    ] {
        assert_eq!(c.on_event(event), (Connection::Failed, ConnectionAction::Nothing));
    }
}

#[test]
fn tasks_end_one_by_one() {
    let open = Connection::Established { sending: true, receiving: true };
    let (after_sender, a1) = open.on_event(ConnectionEvent::SenderStopped);
    assert_eq!(after_sender, Connection::Established { sending: false, receiving: true });
    assert_eq!(a1, ConnectionAction::Nothing);
    let (after_both, a2) = after_sender.on_event(ConnectionEvent::ReceiverStopped);
    assert_eq!(after_both, Connection::Established { sending: false, receiving: false });
    assert_eq!(a2, ConnectionAction::Nothing);
    let (other_way, _) = open.on_event(ConnectionEvent::ReceiverStopped);
    assert_eq!(other_way, Connection::Established { sending: true, receiving: false });
}

#[test]
fn events_out_of_place_change_nothing() {
    let open = Connection::Established { sending: true, receiving: false };
    assert_eq!(open.on_event(ConnectionEvent::Connected), (open, ConnectionAction::Nothing));
    assert_eq!(open.on_event(ConnectionEvent::ConnectFailed), (open, ConnectionAction::Nothing));
    assert_eq!(
        Connection::Connecting.on_event(ConnectionEvent::SenderStopped),
        (Connection::Connecting, ConnectionAction::Nothing)
    );
    assert_eq!(
        Connection::Connecting.on_event(ConnectionEvent::ReceiverStopped),
        (Connection::Connecting, ConnectionAction::Nothing)
    );
}
