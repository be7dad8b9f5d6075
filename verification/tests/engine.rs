use dtchat_backend::db::SimpleVecDB;
use dtchat_backend::dtchat::{ASabrInitState, ChatModel, EngineAction, Peer, Room};
use dtchat_backend::endpoint::{Endpoint, EndpointProto};
use dtchat_backend::event::{
    ChatAppErrorEvent, ChatAppEvent, ChatAppInfoEvent, DataEvent, ErrorEvent, SocketEngineEvent,
};
use dtchat_backend::message::{Content, MessageStatus};
use dtchat_backend::proto_message::{AckMessage, MsgType, ProtoMessage, TextMessage};

fn ep(proto: EndpointProto, addr: &str) -> Endpoint {
    Endpoint { proto, endpoint: addr.to_string() }
}

fn peer(uuid: &str, endpoints: Vec<Endpoint>) -> Peer {
    Peer {
        uuid: uuid.to_string(),
        name: uuid.to_uppercase(),
        endpoints,
        color: "#ffffff".to_string(),
    }
}

/// Local peer "p1" over TCP, peers "p2" (TCP) and "p3" (UDP only), and room
/// "r" holding all three.
fn model() -> ChatModel {
    let local = peer("p1", vec![ep(EndpointProto::Tcp, "10.0.0.1:4000")]);
    let p2 = peer("p2", vec![ep(EndpointProto::Tcp, "10.0.0.2:4000")]);
    let p3 = peer("p3", vec![ep(EndpointProto::Udp, "10.0.0.3:4000")]);
    let room = Room {
        uuid: "r".to_string(),
        name: "the room".to_string(),
        participants: vec![
            ("p1".to_string(), ep(EndpointProto::Tcp, "10.0.0.1:4000")),
            ("p2".to_string(), ep(EndpointProto::Tcp, "10.0.0.2:4000")),
            ("p3".to_string(), ep(EndpointProto::Udp, "10.0.0.3:4000")),
        ],
    };
    let db = SimpleVecDB::new(Vec::new(), local, vec![p2, p3], vec![room]);
    ChatModel::new(db, ASabrInitState::Disabled)
}

fn started_model() -> ChatModel {
    let mut m = model();
    m.start();
    let _ = m.take_events();
    let _ = m.take_actions();
    m
}

fn send_actions(actions: &[EngineAction]) -> Vec<&EngineAction> {
    actions
        .iter()
        .filter(|a| matches!(a, EngineAction::SendData { .. }))
        .collect()
}

#[test]
fn start_listens_on_every_local_endpoint_and_reports_oracle_state() {
    let mut m = model();
    m.start();
    let actions = m.take_actions();
    assert_eq!(actions.len(), 1);
    assert!(
        matches!(&actions[0], EngineAction::StartListener(e) if e.endpoint == "10.0.0.1:4000")
    );
    let events = m.take_events();
    assert_eq!(events.len(), 1);
    assert!(matches!(&events[0], ChatAppEvent::Info(s) if s.contains("disabled")));
    assert!(!m.is_pbat_enabled());
}

#[test]
fn send_to_peer_adds_one_message_per_call_with_distinct_uuids() {
    let mut m = started_model();
    let dest = ep(EndpointProto::Tcp, "10.0.0.2:4000");
    let u1 = m.send_to_peer(
        &Content::Text("one".to_string()),
        &"r".to_string(),
        "p2".to_string(),
        &dest,
        false,
    );
    assert_eq!(m.get_all_messages().len(), 1);
    let u2 = m.send_to_peer(
        &Content::Text("two".to_string()),
        &"r".to_string(),
        "p2".to_string(),
        &dest,
        false,
    );
    assert_eq!(m.get_all_messages().len(), 2);
    assert_ne!(u1, u2);
    let msgs = m.get_all_messages();
    assert_eq!(msgs[0].uuid, u1);
    assert_eq!(msgs[1].uuid, u2);
    assert_eq!(msgs[0].status, MessageStatus::Sending);
}

#[test]
fn send_to_peer_encodes_and_queues_the_transport_send() {
    let mut m = started_model();
    let dest = ep(EndpointProto::Tcp, "10.0.0.2:4000");
    let uuid = m.send_to_peer(
        &Content::Text("hi".to_string()),
        &"r".to_string(),
        "p2".to_string(),
        &dest,
        false,
    );
    let actions = m.take_actions();
    assert_eq!(actions.len(), 1);
    match &actions[0] {
        EngineAction::SendData { local_endpoint, remote_endpoint, data, token } => {
            assert_eq!(token, &uuid);
            assert_eq!(remote_endpoint.endpoint, "10.0.0.2:4000");
            assert_eq!(local_endpoint.as_ref().unwrap().endpoint, "10.0.0.1:4000");
            let env = ProtoMessage::decode_from_vec(data.clone()).unwrap();
            assert_eq!(env.uuid, uuid);
            assert_eq!(env.sender_uuid, "p1");
            assert_eq!(env.source_endpoint, "tcp 10.0.0.1:4000");
            assert!(matches!(&env.msg_type, Some(MsgType::Text(t)) if t.text == "hi"));
        },
        other => panic!("expected a send action, got {:?}", other),
    }
    let events = m.take_events();
    assert_eq!(events.len(), 1);
    assert!(matches!(&events[0], ChatAppEvent::Message(ChatAppInfoEvent::Sending(msg)) if msg.uuid == uuid));
}

#[test]
fn send_without_matching_local_transport_raises_encode_error() {
    let mut m = started_model();
    let dest = ep(EndpointProto::Udp, "10.0.0.3:4000");
    let _uuid = m.send_to_peer(
        &Content::Text("hi".to_string()),
        &"r".to_string(),
        "p3".to_string(),
        &dest,
        false,
    );
    assert!(m.take_actions().is_empty());
    let events = m.take_events();
    assert_eq!(events.len(), 2);
    assert!(matches!(&events[0], ChatAppEvent::Error(ChatAppErrorEvent::ProtocolEncode(_))));
    assert!(matches!(&events[1], ChatAppEvent::Message(ChatAppInfoEvent::Sending(_))));
    // The message is still persisted; only the transport send was skipped.
    assert_eq!(m.get_all_messages().len(), 1);
}

#[test]
fn unknown_completion_token_has_no_observable_effect() {
    let mut m = started_model();
    m.mark_as_sent(&"never-registered".to_string());
    assert!(m.take_events().is_empty());
    assert!(m.take_actions().is_empty());
    assert!(m.get_all_messages().is_empty());
}

#[test]
fn sent_completion_marks_the_message_sent() {
    let mut m = started_model();
    let dest = ep(EndpointProto::Tcp, "10.0.0.2:4000");
    let uuid = m.send_to_peer(
        &Content::Text("hi".to_string()),
        &"r".to_string(),
        "p2".to_string(),
        &dest,
        false,
    );
    let _ = m.take_events();
    let _ = m.take_actions();
    m.on_engine_event(SocketEngineEvent::Data(DataEvent::Sent {
        token: uuid.clone(),
        to: "10.0.0.2:4000".to_string(),
        bytes_sent: 42,
    }));
    let msgs = m.get_all_messages();
    assert_eq!(msgs[0].status, MessageStatus::Sent);
    assert!(msgs[0].send_completed.is_some());
    let events = m.take_events();
    assert_eq!(events.len(), 2);
    assert!(matches!(&events[0], ChatAppEvent::SocketEngineInfo(_)));
    assert!(matches!(&events[1], ChatAppEvent::Message(ChatAppInfoEvent::Sent(msg)) if msg.uuid == uuid));
}

#[test]
fn ack_envelope_sets_receive_time_from_the_wire_not_the_clock() {
    let mut m = started_model();
    let dest = ep(EndpointProto::Tcp, "10.0.0.2:4000");
    let uuid = m.send_to_peer(
        &Content::Text("hi".to_string()),
        &"r".to_string(),
        "p2".to_string(),
        &dest,
        false,
    );
    m.on_engine_event(SocketEngineEvent::Data(DataEvent::Sent {
        token: uuid.clone(),
        to: "10.0.0.2:4000".to_string(),
        bytes_sent: 42,
    }));
    let _ = m.take_events();
    let _ = m.take_actions();
    let ack_instant: i64 = 946_684_800_000;  // far from the local clock
    let ack = ProtoMessage {
        uuid: "ack-1".to_string(),
        sender_uuid: "p2".to_string(),
        timestamp: ack_instant,
        room_uuid: "r".to_string(),
        source_endpoint: "tcp 10.0.0.2:4000".to_string(),
        msg_type: Some(MsgType::Ack(AckMessage { message_uuid: uuid.clone() })),
    };
    let bytes = ack.encode_to_vec().unwrap();
    m.on_engine_event(SocketEngineEvent::Data(DataEvent::Received {
        data: bytes,
        from: "10.0.0.2:60000".to_string(),
    }));
    let msgs = m.get_all_messages();
    assert_eq!(msgs[0].status, MessageStatus::ReceivedByPeer);
    assert_eq!(msgs[0].receive_time.unwrap().timestamp_millis(), ack_instant);
    let events = m.take_events();
    assert!(matches!(&events[1], ChatAppEvent::Message(ChatAppInfoEvent::AckReceived(msg)) if msg.uuid == uuid));
}

#[test]
fn ack_for_unknown_message_raises_not_found() {
    let mut m = started_model();
    let ack = ProtoMessage {
        uuid: "ack-1".to_string(),
        sender_uuid: "p2".to_string(),
        timestamp: 1000,
        room_uuid: "r".to_string(),
        source_endpoint: "tcp 10.0.0.2:4000".to_string(),
        msg_type: Some(MsgType::Ack(AckMessage { message_uuid: "ghost".to_string() })),
    };
    m.treat_proto_message(ack);
    let events = m.take_events();
    assert_eq!(events.len(), 1);
    assert!(matches!(&events[0], ChatAppEvent::Error(ChatAppErrorEvent::MessageNotFound(_))));
}

#[test]
fn ack_with_unreadable_timestamp_raises_decode_error() {
    let mut m = started_model();
    let ack = ProtoMessage {
        uuid: "ack-1".to_string(),
        sender_uuid: "p2".to_string(),
        timestamp: i64::MAX,
        room_uuid: "r".to_string(),
        source_endpoint: "tcp 10.0.0.2:4000".to_string(),
        msg_type: Some(MsgType::Ack(AckMessage { message_uuid: "ghost".to_string() })),
    };
    m.treat_proto_message(ack);
    let events = m.take_events();
    assert_eq!(events.len(), 1);
    assert!(matches!(&events[0], ChatAppEvent::Error(ChatAppErrorEvent::ProtocolDecode(_))));
}

#[test]
fn received_text_is_stored_and_acknowledged() {
    let mut m = started_model();
    let inbound = ProtoMessage {
        uuid: "w-9".to_string(),
        sender_uuid: "p2".to_string(),
        timestamp: 123_456,
        room_uuid: "r".to_string(),
        source_endpoint: "tcp 10.0.0.2:4000".to_string(),
        msg_type: Some(MsgType::Text(TextMessage { text: "hello".to_string() })),
    };
    let bytes = inbound.encode_to_vec().unwrap();
    m.on_engine_event(SocketEngineEvent::Data(DataEvent::Received {
        data: bytes,
        from: "10.0.0.2:60000".to_string(),
    }));
    let msgs = m.get_all_messages();
    assert_eq!(msgs.len(), 1);
    assert_eq!(msgs[0].uuid, "w-9");
    assert_eq!(msgs[0].status, MessageStatus::Received);
    let actions = m.take_actions();
    assert_eq!(actions.len(), 1);
    match &actions[0] {
        EngineAction::SendData { remote_endpoint, data, .. } => {
            assert_eq!(remote_endpoint.endpoint, "10.0.0.2:4000");
            let ack = ProtoMessage::decode_from_vec(data.clone()).unwrap();
            assert_eq!(ack.sender_uuid, "p1");
            assert!(
                matches!(&ack.msg_type, Some(MsgType::Ack(a)) if a.message_uuid == "w-9")
            );
        },
        other => panic!("expected the acknowledgement send, got {:?}", other),
    }
    let events = m.take_events();
    assert!(matches!(&events[1], ChatAppEvent::Message(ChatAppInfoEvent::Received(_))));
    assert!(matches!(&events[2], ChatAppEvent::Message(ChatAppInfoEvent::AckSent(_, _))));
}

#[test]
fn received_file_queues_a_store_action() {
    let mut m = started_model();
    let inbound = ProtoMessage {
        uuid: "f-1".to_string(),
        sender_uuid: "p2".to_string(),
        timestamp: 123_456,
        room_uuid: "r".to_string(),
        source_endpoint: "tcp 10.0.0.2:4000".to_string(),
        msg_type: Some(MsgType::File(dtchat_backend::proto_message::FileMessage {
            name: "a.bin".to_string(),
            data: vec![9, 8, 7],
        })),
    };
    m.treat_proto_message(inbound);
    let actions = m.take_actions();
    assert_eq!(actions.len(), 2);
    assert!(
        matches!(&actions[0], EngineAction::StoreFile { name, data } if name == "a.bin" && data == &vec![9, 8, 7])
    );
    assert!(matches!(&actions[1], EngineAction::SendData { .. }));
}

#[test]
fn malformed_wire_bytes_raise_a_decode_error() {
    let mut m = started_model();
    m.on_engine_event(SocketEngineEvent::Data(DataEvent::Received {
        data: vec![0xDE, 0xAD],
        from: "10.0.0.2:60000".to_string(),
    }));
    let events = m.take_events();
    assert_eq!(events.len(), 2);
    assert!(matches!(&events[1], ChatAppEvent::Error(ChatAppErrorEvent::ProtocolDecode(_))));
    assert!(m.get_all_messages().is_empty());
}

#[test]
fn send_to_room_without_local_membership_is_a_no_op() {
    let local = peer("p1", vec![ep(EndpointProto::Tcp, "10.0.0.1:4000")]);
    let p2 = peer("p2", vec![ep(EndpointProto::Tcp, "10.0.0.2:4000")]);
    let room = Room {
        uuid: "closed".to_string(),
        name: "closed".to_string(),
        participants: vec![("p2".to_string(), ep(EndpointProto::Tcp, "10.0.0.2:4000"))],
    };
    let db = SimpleVecDB::new(Vec::new(), local, vec![p2], vec![room]);
    let mut m = ChatModel::new(db, ASabrInitState::Disabled);
    m.start();
    let _ = m.take_events();
    let _ = m.take_actions();
    let r = m.send_to_room(&Content::Text("hi".to_string()), &"closed".to_string(), false);
    assert!(r.is_none());
    assert!(m.take_events().is_empty());
    assert!(m.take_actions().is_empty());
    assert!(m.get_all_messages().is_empty());
}

#[test]
fn send_to_unknown_room_is_a_no_op() {
    let mut m = started_model();
    let r = m.send_to_room(&Content::Text("hi".to_string()), &"nowhere".to_string(), false);
    assert!(r.is_none());
    assert!(m.take_events().is_empty());
    assert!(m.take_actions().is_empty());
}

#[test]
fn room_send_reaches_matching_transports_and_reports_the_rest() {
    // p2 is bound over TCP, which the local peer has; p3 is bound over UDP,
    // which it does not: p2 gets the one send attempt, p3 yields an encode
    // error event instead of being silently skipped.
    let mut m = started_model();
    let rm = m
        .send_to_room(&Content::Text("hi".to_string()), &"r".to_string(), false)
        .unwrap();
    assert_eq!(rm.room_uuid, "r");
    assert_eq!(rm.messages.len(), 2);
    assert_eq!(m.get_all_messages().len(), 2);
    let actions = m.take_actions();
    let sends = send_actions(&actions);
    assert_eq!(sends.len(), 1);
    assert!(
        matches!(sends[0], EngineAction::SendData { remote_endpoint, .. } if remote_endpoint.endpoint == "10.0.0.2:4000")
    );
    let events = m.take_events();
    let encode_errors = events
        .iter()
        .filter(|e| matches!(e, ChatAppEvent::Error(ChatAppErrorEvent::ProtocolEncode(_))))
        .count();
    assert_eq!(encode_errors, 1);
}

#[test]
fn connection_failure_fails_the_pending_text_message() {
    let mut m = started_model();
    let dest = ep(EndpointProto::Tcp, "10.0.0.2:4000");
    let uuid = m.send_to_peer(
        &Content::Text("hi".to_string()),
        &"r".to_string(),
        "p2".to_string(),
        &dest,
        false,
    );
    let _ = m.take_events();
    let _ = m.take_actions();
    m.on_engine_event(SocketEngineEvent::Error(ErrorEvent::ConnectionFailed {
        endpoint: "10.0.0.2:4000".to_string(),
        reason: "refused".to_string(),
        token: uuid.clone(),
    }));
    let msgs = m.get_all_messages();
    assert_eq!(msgs[0].status, MessageStatus::Failed);
    let events = m.take_events();
    assert_eq!(events.len(), 1);
    assert!(matches!(&events[0], ChatAppEvent::SocketEngineError(_)));
}

#[test]
fn connection_failure_for_a_pending_ack_changes_nothing() {
    let mut m = started_model();
    // Receive a text so the engine registers a pending acknowledgement.
    let inbound = ProtoMessage {
        uuid: "w-2".to_string(),
        sender_uuid: "p2".to_string(),
        timestamp: 5_000,
        room_uuid: "r".to_string(),
        source_endpoint: "tcp 10.0.0.2:4000".to_string(),
        msg_type: Some(MsgType::Text(TextMessage { text: "yo".to_string() })),
    };
    m.treat_proto_message(inbound);
    let actions = m.take_actions();
    let ack_token = match &actions[0] {
        EngineAction::SendData { token, .. } => token.clone(),
        other => panic!("expected the acknowledgement send, got {:?}", other),
    };
    let _ = m.take_events();
    let before = m.get_all_messages();
    m.on_engine_event(SocketEngineEvent::Error(ErrorEvent::SendFailed {
        endpoint: "10.0.0.2:4000".to_string(),
        reason: "broken pipe".to_string(),
        token: ack_token,
    }));
    let after = m.get_all_messages();
    assert_eq!(before, after);
    let events = m.take_events();
    assert_eq!(events.len(), 1);
    assert!(matches!(&events[0], ChatAppEvent::SocketEngineError(_)));
}

#[test]
fn unstarted_engine_persists_but_queues_no_transport_work() {
    let mut m = model();
    let dest = ep(EndpointProto::Tcp, "10.0.0.2:4000");
    let _ = m.send_to_peer(
        &Content::Text("hi".to_string()),
        &"r".to_string(),
        "p2".to_string(),
        &dest,
        false,
    );
    assert_eq!(m.get_all_messages().len(), 1);
    assert!(m.take_actions().is_empty());
    let events = m.take_events();
    assert_eq!(events.len(), 1);
    assert!(matches!(&events[0], ChatAppEvent::Message(ChatAppInfoEvent::Sending(_))));
}

#[test]
fn prediction_request_is_queued_only_when_possible_and_enabled() {
    let local = peer(
        "p1",
        vec![ep(EndpointProto::Tcp, "10.0.0.1:4000"), ep(EndpointProto::Bp, "ipn:1.1")],
    );
    let p2 = peer(
        "p2",
        vec![ep(EndpointProto::Tcp, "10.0.0.2:4000"), ep(EndpointProto::Bp, "ipn:2.1")],
    );
    let db = SimpleVecDB::new(Vec::new(), local, vec![p2], Vec::new());
    let mut m = ChatModel::new(db, ASabrInitState::Enabled);
    m.start();
    let _ = m.take_events();
    let _ = m.take_actions();
    let dest = ep(EndpointProto::Tcp, "10.0.0.2:4000");
    let uuid = m.send_to_peer(
        &Content::Text("hi".to_string()),
        &"r".to_string(),
        "p2".to_string(),
        &dest,
        true,
    );
    let actions = m.take_actions();
    assert_eq!(actions.len(), 2);
    assert!(matches!(&actions[0], EngineAction::SendData { .. }));
    match &actions[1] {
        EngineAction::RequestPrediction { source_eid, dest_eid, size_bytes, message_uuid } => {
            assert_eq!(source_eid, "ipn:1.1");
            assert_eq!(dest_eid, "ipn:2.1");
            assert!(*size_bytes > 0);
            assert_eq!(message_uuid, &uuid);
        },
        other => panic!("expected a prediction request, got {:?}", other),
    }
    // The oracle's answer lands on the stored message.
    let arrival = dtchat_backend::time::DTChatTime::from_timestamp_millis(7_777).unwrap();
    m.apply_prediction(&uuid, arrival);
    let msgs = m.get_all_messages();
    assert_eq!(msgs[0].predicted_arrival_time.unwrap().timestamp_millis(), 7_777);
}

#[test]
fn connection_notices_pass_through_to_observers() {
    let mut m = started_model();
    m.on_engine_event(SocketEngineEvent::Connection(
        dtchat_backend::event::ConnectionEvent::Established { remote: "1.2.3.4:5".to_string() },
    ));
    m.on_engine_event(SocketEngineEvent::Data(DataEvent::Sending {
        token: "t".to_string(),
        to: "1.2.3.4:5".to_string(),
        bytes: 3,
    }));
    m.on_engine_event(SocketEngineEvent::Error(ErrorEvent::SocketError {
        reason: "boom".to_string(),
    }));
    let events = m.take_events();
    assert_eq!(events.len(), 3);
    assert!(matches!(&events[0], ChatAppEvent::SocketEngineInfo(_)));
    assert!(matches!(&events[1], ChatAppEvent::SocketEngineInfo(_)));
    assert!(matches!(&events[2], ChatAppEvent::SocketEngineError(_)));
    // None of these touch the store or queue transport work.
    assert!(m.take_actions().is_empty());
    assert!(m.get_all_messages().is_empty());
}

#[test]
fn last_messages_returns_the_most_recent_slice() {
    let mut m = started_model();
    let dest = ep(EndpointProto::Tcp, "10.0.0.2:4000");
    let mut uuids = Vec::new();
    for i in 0..4 {
        uuids.push(m.send_to_peer(
            &Content::Text(format!("m{}", i)),
            &"r".to_string(),
            "p2".to_string(),
            &dest,
            false,
        ));
    }
    let last2 = m.get_last_messages(2);
    assert_eq!(last2.len(), 2);
    assert_eq!(last2[0].uuid, uuids[2]);
    assert_eq!(last2[1].uuid, uuids[3]);
    let all = m.get_last_messages(99);
    assert_eq!(all.len(), 4);
}

#[test]
fn getters_expose_the_configured_store() {
    let m = model();
    assert_eq!(m.get_localpeer().uuid, "p1");
    let peers = m.get_other_peers();
    assert_eq!(peers.len(), 2);
    assert_eq!(peers[0].uuid, "p2");
    let rooms = m.get_rooms();
    assert_eq!(rooms.len(), 1);
    assert_eq!(rooms[0].participants.len(), 3);
}
