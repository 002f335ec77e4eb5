use zo_tunnel::protocol::{
    encode_frame, parse_header, FrameHeader, Message, MessageType, ProtocolError,
    DEFAULT_CONTROL_PORT, DEFAULT_PUBLIC_PORT, HEARTBEAT_INTERVAL_SECS, HEARTBEAT_TIMEOUT_SECS,
    MAX_PAYLOAD_SIZE, PROTOCOL_VERSION,
};
use zo_tunnel::protocol::{AuthReq, AuthRes};

fn header_of(frame: &[u8]) -> [u8; 6] {
    let mut h = [0u8; 6];
    h.copy_from_slice(&frame[..6]);
    h
}

fn roundtrip_plain(msg: &Message) -> Message {
    let payload = msg.encode_payload().expect("plain payload");
    let frame = encode_frame(msg.msg_type(), &payload).unwrap();
    let header = parse_header(&header_of(&frame)).unwrap();
    assert_eq!(header.payload_len as usize, frame.len() - 6);
    Message::decode(header.msg_type, &frame[6..]).unwrap().expect("decoded")
}

#[test]
fn test_constants() {
    assert_eq!(PROTOCOL_VERSION, 1);
    assert_eq!(MAX_PAYLOAD_SIZE, 16 * 1024 * 1024);
    assert_eq!(DEFAULT_CONTROL_PORT, 6200);
    assert_eq!(DEFAULT_PUBLIC_PORT, 6210);
    assert_eq!(HEARTBEAT_INTERVAL_SECS, 15);
    assert_eq!(HEARTBEAT_TIMEOUT_SECS, 90);
}

#[test]
fn frame_roundtrip_ping_pong() {
    assert!(matches!(roundtrip_plain(&Message::Ping), Message::Ping));
    assert!(matches!(roundtrip_plain(&Message::Pong), Message::Pong));
    assert!(matches!(roundtrip_plain(&Message::Close), Message::Close));
}

#[test]
fn frame_roundtrip_error_text() {
    match roundtrip_plain(&Message::Error("tunnel ✓ closed".to_string())) {
        Message::Error(s) => assert_eq!(s, "tunnel ✓ closed"),
        other => panic!("Expected Error, got {:?}", other),
    }
}

#[test]
fn frame_layout_is_big_endian() {
    let frame = encode_frame(MessageType::Error, b"abc").unwrap();
    assert_eq!(frame, vec![1, 8, 0, 0, 0, 3, b'a', b'b', b'c']);
    let frame = encode_frame(MessageType::Ping, &[]).unwrap();
    assert_eq!(frame, vec![1, 5, 0, 0, 0, 0]);
}

#[test]
fn payload_limit() {
    let big = vec![0u8; MAX_PAYLOAD_SIZE as usize + 1];
    assert_eq!(
        encode_frame(MessageType::AuthReq, &big),
        Err(ProtocolError::PayloadTooLarge { len: MAX_PAYLOAD_SIZE as u64 + 1 })
    );
    let ok = vec![0u8; MAX_PAYLOAD_SIZE as usize];
    assert_eq!(encode_frame(MessageType::AuthReq, &ok).unwrap().len(), MAX_PAYLOAD_SIZE as usize + 6);
}

#[test]
fn header_errors_in_order() {
    assert_eq!(
        parse_header(&[2, 99, 0xff, 0xff, 0xff, 0xff]),
        Err(ProtocolError::VersionMismatch { got: 2 })
    );
    assert_eq!(
        parse_header(&[1, 0x0a, 0xff, 0xff, 0xff, 0xff]),
        Err(ProtocolError::UnknownMessageType { value: 0x0a })
    );
    assert_eq!(
        parse_header(&[1, 0x02, 0x01, 0x00, 0x00, 0x01]),
        Err(ProtocolError::PayloadTooLarge { len: 0x0100_0001 })
    );
    assert_eq!(
        parse_header(&[1, 0x02, 0x01, 0x00, 0x00, 0x00]),
        Ok(FrameHeader { msg_type: MessageType::AuthRes, payload_len: 0x0100_0000 })
    );
}

#[test]
fn message_type_bytes() {
    let kinds = [
        MessageType::AuthReq,
        MessageType::AuthRes,
        MessageType::NewConn,
        MessageType::Data,
        MessageType::Ping,
        MessageType::Pong,
        MessageType::Close,
        MessageType::Error,
        MessageType::AcceptConn,
    ];
    for (i, k) in kinds.iter().enumerate() {
        assert_eq!(k.as_byte() as usize, i + 1);
        assert_eq!(MessageType::try_from(k.as_byte()), Ok(*k));
    }
    assert_eq!(MessageType::try_from(0), Err(ProtocolError::UnknownMessageType { value: 0 }));
    assert_eq!(MessageType::try_from(0x10), Err(ProtocolError::UnknownMessageType { value: 0x10 }));
}

#[test]
fn json_kinds_are_left_to_the_caller() {
    assert!(MessageType::AuthReq.is_json());
    assert!(MessageType::AcceptConn.is_json());
    assert!(!MessageType::Error.is_json());
    assert!(matches!(Message::decode(MessageType::AuthReq, b"{}"), Ok(None)));
    assert!(matches!(Message::decode(MessageType::NewConn, b"{}"), Ok(None)));
    assert!(matches!(Message::decode(MessageType::Data, b""), Err(ProtocolError::DataMessage)));
    let req = Message::AuthReq(AuthReq {
        client_id: "test-client".into(),
        token: "secret123".into(),
        version: None,
    });
    assert!(req.encode_payload().is_none());
    assert_eq!(req.msg_type(), MessageType::AuthReq);
    let res = Message::AuthRes(AuthRes {
        success: true,
        message: "OK".into(),
        public_port: Some(6210),
        assigned_route: Some("my-app".into()),
    });
    assert_eq!(res.msg_type(), MessageType::AuthRes);
}

#[test]
fn invalid_utf8_error_text_is_lossy() {
    match Message::decode(MessageType::Error, &[b'o', b'k', 0xff]).unwrap() {
        Some(Message::Error(s)) => assert_eq!(s, "ok\u{fffd}"),
        _ => panic!("expected an error message"),
    }
}

#[test]
fn heartbeat_support_follows_version() {
    let mut req = AuthReq { client_id: "a".into(), token: "t".into(), version: None };
    assert!(!req.supports_heartbeat());
    req.version = Some("0.0.2".into());
    assert!(req.supports_heartbeat());
}
