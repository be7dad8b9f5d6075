use dtchat_backend::proto_message::{
    AckMessage, FileMessage, MsgType, ProtoMessage, TextMessage,
};

fn envelope(msg_type: Option<MsgType>) -> ProtoMessage {
    ProtoMessage {
        uuid: "m-1".to_string(),
        sender_uuid: "peer-a".to_string(),
        timestamp: 1_700_000_000_123,
        room_uuid: "room-1".to_string(),
        source_endpoint: "tcp 127.0.0.1:8000".to_string(),
        msg_type,
    }
}

#[test]
fn round_trip_text() {
    let env = envelope(Some(MsgType::Text(TextMessage { text: "hi".to_string() })));
    let bytes = env.encode_to_vec().unwrap();
    let back = ProtoMessage::decode_from_vec(bytes).unwrap();
    assert_eq!(back, env);
}

#[test]
fn round_trip_empty_text() {
    let env = envelope(Some(MsgType::Text(TextMessage { text: String::new() })));
    let back = ProtoMessage::decode_from_vec(env.encode_to_vec().unwrap()).unwrap();
    assert_eq!(back, env);
}

#[test]
fn round_trip_file() {
    let env = envelope(Some(MsgType::File(FileMessage {
        name: "notes.txt".to_string(),
        data: vec![0, 1, 2, 255, 128, 7],
    })));
    let back = ProtoMessage::decode_from_vec(env.encode_to_vec().unwrap()).unwrap();
    assert_eq!(back, env);
}

#[test]
fn round_trip_file_empty_payload() {
    let env = envelope(Some(MsgType::File(FileMessage {
        name: "empty.bin".to_string(),
        data: Vec::new(),
    })));
    let back = ProtoMessage::decode_from_vec(env.encode_to_vec().unwrap()).unwrap();
    assert_eq!(back, env);
}

#[test]
fn round_trip_ack() {
    let env = envelope(Some(MsgType::Ack(AckMessage { message_uuid: "m-0".to_string() })));
    let back = ProtoMessage::decode_from_vec(env.encode_to_vec().unwrap()).unwrap();
    assert_eq!(back, env);
}

#[test]
fn round_trip_non_ascii_text() {
    let env = envelope(Some(MsgType::Text(TextMessage { text: "héllo ✓ ürt".to_string() })));
    let back = ProtoMessage::decode_from_vec(env.encode_to_vec().unwrap()).unwrap();
    assert_eq!(back, env);
}

#[test]
fn round_trip_negative_timestamp() {
    let mut env = envelope(Some(MsgType::Ack(AckMessage { message_uuid: "x".to_string() })));
    env.timestamp = -12_345;
    let back = ProtoMessage::decode_from_vec(env.encode_to_vec().unwrap()).unwrap();
    assert_eq!(back, env);
}

#[test]
fn exact_bytes_of_small_ack_envelope() {
    let env = ProtoMessage {
        uuid: "a".to_string(),
        sender_uuid: "b".to_string(),
        timestamp: 300,
        room_uuid: "c".to_string(),
        source_endpoint: "tcp x".to_string(),
        msg_type: Some(MsgType::Ack(AckMessage { message_uuid: "d".to_string() })),
    };
    let bytes = env.encode_to_vec().unwrap();
    let expected: Vec<u8> = vec![
        0x0A, 1, b'a', // uuid
        0x12, 1, b'b', // sender
        0x18, 0xAC, 0x02, // timestamp 300 as varint
        0x22, 1, b'c', // room
        0x2A, 5, b't', b'c', b'p', b' ', b'x', // source endpoint
        0x42, 3, 0x0A, 1, b'd', // ack payload
    ];
    assert_eq!(bytes, expected);
}

#[test]
fn encode_without_payload_fails() {
    let env = envelope(None);
    assert!(env.encode_to_vec().is_err());
}

#[test]
fn decode_rejects_garbage() {
    assert!(ProtoMessage::decode_from_vec(vec![1, 2, 3, 4]).is_err());
    assert!(ProtoMessage::decode_from_vec(Vec::new()).is_err());
}

#[test]
fn decode_rejects_truncation() {
    let env = envelope(Some(MsgType::Text(TextMessage { text: "hello".to_string() })));
    let bytes = env.encode_to_vec().unwrap();
    for cut in 0..bytes.len() {
        let truncated: Vec<u8> = bytes[..cut].to_vec();
        assert!(ProtoMessage::decode_from_vec(truncated).is_err());
    }
}

#[test]
fn decode_rejects_trailing_bytes() {
    let env = envelope(Some(MsgType::Text(TextMessage { text: "hello".to_string() })));
    let mut bytes = env.encode_to_vec().unwrap();
    bytes.push(0);
    assert!(ProtoMessage::decode_from_vec(bytes).is_err());
}

#[test]
fn decode_rejects_invalid_utf8_field() {
    let env = envelope(Some(MsgType::Text(TextMessage { text: "zz".to_string() })));
    let mut bytes = env.encode_to_vec().unwrap();
    // The uuid field's bytes start right after its tag and length.
    bytes[2] = 0xFF;
    bytes[3] = 0xFE;
    assert!(ProtoMessage::decode_from_vec(bytes).is_err());
}

#[test]
fn round_trip_all_empty_fields() {
    let env = ProtoMessage {
        uuid: String::new(),
        sender_uuid: String::new(),
        timestamp: 0,
        room_uuid: String::new(),
        source_endpoint: String::new(),
        msg_type: Some(MsgType::Text(TextMessage { text: String::new() })),
    };
    let bytes = env.encode_to_vec().unwrap();
    let back = ProtoMessage::decode_from_vec(bytes).unwrap();
    assert_eq!(back, env);
}
