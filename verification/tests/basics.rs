use core::cmp::Ordering;
use dtchat_backend::dtchat::generate_uuid;
use dtchat_backend::endpoint::{Endpoint, EndpointProto};
use dtchat_backend::message::{ChatMessage, Content, MessageStatus};
use dtchat_backend::prediction::extract_ion_id_from_bp_address;
use dtchat_backend::proto_message::{MsgType, ProtoMessage, TextMessage};
use dtchat_backend::text::{safe_message_id_display, str_eq};
use dtchat_backend::time::{DTChatTime, MAX_TIMESTAMP_MILLIS, MIN_TIMESTAMP_MILLIS};

#[test]
fn endpoint_parses_canonical_text() {
    let e = Endpoint::from_str("tcp 127.0.0.1:8000").unwrap();
    assert_eq!(e.proto, EndpointProto::Tcp);
    assert_eq!(e.endpoint, "127.0.0.1:8000");
    let u = Endpoint::from_str("udp [::1]:9").unwrap();
    assert_eq!(u.proto, EndpointProto::Udp);
    assert_eq!(u.endpoint, "[::1]:9");
    let b = Endpoint::from_str("bp ipn:7.1").unwrap();
    assert_eq!(b.proto, EndpointProto::Bp);
    assert_eq!(b.endpoint, "ipn:7.1");
}

#[test]
fn endpoint_rejects_other_shapes() {
    assert!(Endpoint::from_str("").is_none());
    assert!(Endpoint::from_str("tcp").is_none());
    assert!(Endpoint::from_str("TCP 1.2.3.4:5").is_none());
    assert!(Endpoint::from_str("quic 1.2.3.4:5").is_none());
    assert!(Endpoint::from_str("bp").is_none());
}

#[test]
fn endpoint_text_round_trips() {
    for text in ["tcp 10.0.0.1:4000", "udp host:1", "bp ipn:3.1", "tcp "] {
        let e = Endpoint::from_str(text).unwrap();
        assert_eq!(e.to_string(), text);
        let again = Endpoint::from_str(&e.to_string()).unwrap();
        assert_eq!(again, e);
    }
}

#[test]
fn timestamp_validity_matches_time_library_bounds() {
    assert!(DTChatTime::from_timestamp_millis(0).is_some());
    assert!(DTChatTime::from_timestamp_millis(MIN_TIMESTAMP_MILLIS).is_some());
    assert!(DTChatTime::from_timestamp_millis(MAX_TIMESTAMP_MILLIS).is_some());
    assert!(DTChatTime::from_timestamp_millis(MIN_TIMESTAMP_MILLIS - 1).is_none());
    assert!(DTChatTime::from_timestamp_millis(MAX_TIMESTAMP_MILLIS + 1).is_none());
    assert!(DTChatTime::from_timestamp_millis(i64::MIN).is_none());
    assert!(DTChatTime::from_timestamp_millis(i64::MAX).is_none());
}

#[test]
fn timestamps_round_trip_through_milliseconds() {
    let t = DTChatTime::from_timestamp_millis(1_700_000_000_123).unwrap();
    assert_eq!(t.timestamp_millis(), 1_700_000_000_123);
    let now = DTChatTime::now();
    assert!(DTChatTime::from_timestamp_millis(now.timestamp_millis()).is_some());
}

#[test]
fn time_cmp_is_total() {
    let a = DTChatTime::from_timestamp_millis(1).unwrap();
    let b = DTChatTime::from_timestamp_millis(2).unwrap();
    assert_eq!(a.cmp(&b), Ordering::Less);
    assert_eq!(b.cmp(&a), Ordering::Greater);
    assert_eq!(a.cmp(&a), Ordering::Equal);
}

#[test]
fn message_id_display_truncates_to_eight_chars() {
    assert_eq!(safe_message_id_display("abcdefghij"), "abcdefgh");
    assert_eq!(safe_message_id_display("abc"), "abc");
    assert_eq!(safe_message_id_display(""), "");
}

#[test]
fn str_eq_compares_characters() {
    assert!(str_eq("héllo", "héllo"));
    assert!(!str_eq("héllo", "hello"));
    assert!(!str_eq("ab", "abc"));
}

#[test]
fn generated_uuids_have_canonical_length() {
    let u = generate_uuid();
    assert_eq!(u.chars().count(), 36);
}

#[test]
fn ion_id_extraction() {
    assert_eq!(extract_ion_id_from_bp_address("ipn:42.7"), "42");
    assert_eq!(extract_ion_id_from_bp_address("ipn:42"), "ipn:42");
    assert_eq!(extract_ion_id_from_bp_address("dtn://node/x"), "dtn://node/x");
    assert_eq!(extract_ion_id_from_bp_address(""), "");
    assert_eq!(extract_ion_id_from_bp_address("ipn:.5"), "");
}

fn sample_envelope(timestamp: i64, source_endpoint: &str) -> ProtoMessage {
    ProtoMessage {
        uuid: "w-1".to_string(),
        sender_uuid: "remote".to_string(),
        timestamp,
        room_uuid: "room".to_string(),
        source_endpoint: source_endpoint.to_string(),
        msg_type: Some(MsgType::Text(TextMessage { text: "hi".to_string() })),
    }
}

#[test]
fn new_received_takes_wire_timestamp_and_endpoint() {
    let env = sample_envelope(777, "tcp 9.9.9.9:1");
    let m = ChatMessage::new_received(&env, Content::Text("hi".to_string())).unwrap();
    assert_eq!(m.uuid, "w-1");
    assert_eq!(m.sender_uuid, "remote");
    assert_eq!(m.send_time.timestamp_millis(), 777);
    assert_eq!(m.send_completed.unwrap().timestamp_millis(), 777);
    assert!(m.receive_time.is_some());
    assert_eq!(m.status, MessageStatus::Received);
    assert_eq!(m.source_endpoint.proto, EndpointProto::Tcp);
    assert_eq!(m.source_endpoint.endpoint, "9.9.9.9:1");
}

#[test]
fn new_received_rejects_bad_timestamp_or_endpoint() {
    let bad_ts = sample_envelope(i64::MAX, "tcp 9.9.9.9:1");
    assert!(ChatMessage::new_received(&bad_ts, Content::Text("hi".to_string())).is_none());
    let bad_ep = sample_envelope(777, "??");
    assert!(ChatMessage::new_received(&bad_ep, Content::Text("hi".to_string())).is_none());
}

#[test]
fn new_to_send_stamps_a_fresh_sending_message() {
    let sender = "local".to_string();
    let room = "room".to_string();
    let ep = Endpoint { proto: EndpointProto::Udp, endpoint: "h:2".to_string() };
    let m = ChatMessage::new_to_send(&sender, &room, Content::Text("x".to_string()), ep);
    assert_eq!(m.uuid.chars().count(), 36);
    assert_eq!(m.sender_uuid, "local");
    assert_eq!(m.status, MessageStatus::Sending);
    assert!(m.send_completed.is_none() && m.receive_time.is_none());
    let (sent, predicted, received) = m.get_shipment_status_timestamps();
    assert_eq!(sent, m.send_time.timestamp_millis());
    assert!(predicted.is_none() && received.is_none());
}
