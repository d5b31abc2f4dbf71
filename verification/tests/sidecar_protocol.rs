use nexusnet::sidecar_protocol::{
    decode_frame, encode_frame, frame_length, FrameError, Message, SidecarError, MAX_FRAME,
};
use uuid::Uuid;

fn round_trip(msg: Message) {
    let frame = encode_frame(&msg).unwrap();
    let body = &frame[4..];
    assert_eq!(frame.len(), 4 + body.len());
    assert_eq!(
        u32::from_be_bytes(frame[0..4].try_into().unwrap()) as usize,
        body.len()
    );
    assert_eq!(decode_frame(body).unwrap(), msg);
}

fn new_id() -> u128 {
    Uuid::new_v4().as_u128()
}

#[test]
fn request_reply_round_trip() {
    let id = new_id();
    round_trip(Message::Request {
        id,
        service: "cmd".into(),
        payload: vec![0, 1, 2, 255],
    });
    round_trip(Message::Reply {
        id,
        ok: false,
        result: None,
        error: Some(SidecarError::new("timeout", "too slow")),
    });
}

#[test]
fn control_ops_round_trip() {
    let id = new_id();
    round_trip(Message::ListServices { id });
    round_trip(Message::DiscoverProviders {
        id,
        service: "cmd".into(),
    });
    round_trip(Message::AddKey {
        id,
        key: "/k".into(),
        value: Some(vec![9, 8, 7]),
        providing: true,
    });
    round_trip(Message::ServiceRequestTo {
        id,
        service: "cmd".into(),
        peer: "12D3KooW".into(),
        payload: vec![],
    });
}

#[test]
fn oversized_frame_rejected() {
    assert!(matches!(
        decode_frame(&vec![0u8; MAX_FRAME + 1]),
        Err(FrameError::TooLarge(_))
    ));
}

#[test]
fn malformed_body_rejected() {
    assert!(matches!(decode_frame(&[0xff]), Err(FrameError::Decode(_))));
}

#[test]
fn every_other_message_round_trips() {
    let id = 0x0123_4567_89ab_cdef_0123_4567_89ab_cdef;
    round_trip(Message::Hello { version: 2 });
    round_trip(Message::Reply { id, ok: true, result: Some(vec![1, 2]), error: None });
    round_trip(Message::QueryPublicIp { id });
    round_trip(Message::ReconnectBootstrap { id });
    round_trip(Message::ReannounceServices { id });
    round_trip(Message::ReloadConfig { id });
    round_trip(Message::RelayStatus { id });
    round_trip(Message::PqStatus { id });
    round_trip(Message::AuthStatus { id });
    round_trip(Message::QueryKey { id, key: "键".into() });
    round_trip(Message::AddKey { id, key: "k".into(), value: None, providing: false });
    round_trip(Message::ServiceRequest { id, service: "s".into(), payload: vec![200; 300] });
}

#[test]
fn hello_has_known_bytes() {
    let frame = encode_frame(&Message::Hello { version: 2 }).unwrap();
    let mut expected = vec![0, 0, 0, 17, 0xa2, 0x61, b't', 0x65];
    expected.extend_from_slice(b"hello");
    expected.push(0x67);
    expected.extend_from_slice(b"version");
    expected.push(2);
    expected[3] = (expected.len() - 4) as u8;
    assert_eq!(frame, expected);
}

#[test]
fn value_of_a_key_is_a_byte_string() {
    let msg = Message::AddKey { id: 7, key: "k".into(), value: Some(vec![9, 8]), providing: true };
    let frame = encode_frame(&msg).unwrap();
    let value: ciborium::Value = ciborium::de::from_reader(&frame[4..]).unwrap();
    let members = value.as_map().unwrap();
    let found = |name: &str| {
        members.iter().find(|(k, _)| k.as_text() == Some(name)).map(|(_, v)| v.clone())
    };
    assert_eq!(found("value"), Some(ciborium::Value::Bytes(vec![9, 8])));
    assert_eq!(found("t"), Some(ciborium::Value::Text("add_key".into())));
    assert_eq!(found("id"), Some(ciborium::Value::Bytes(Uuid::from_u128(7).as_bytes().to_vec())));
}

fn body(members: Vec<(&str, ciborium::Value)>) -> Vec<u8> {
    let map = members
        .into_iter()
        .map(|(k, v)| (ciborium::Value::Text(k.into()), v))
        .collect();
    let mut out = Vec::new();
    ciborium::ser::into_writer(&ciborium::Value::Map(map), &mut out).unwrap();
    out
}

#[test]
fn messages_hold_no_tags() {
    let hello = |more: ciborium::Value| {
        body(vec![("t", "hello".into()), ("version", 2.into()), ("more", more)])
    };
    assert_eq!(decode_frame(&hello(ciborium::Value::Float(0.5))).unwrap(), Message::Hello { version: 2 });
    let tagged = ciborium::Value::Tag(9, Box::new(ciborium::Value::Null));
    assert!(decode_frame(&hello(tagged.clone())).is_err());
    assert!(decode_frame(&hello(ciborium::Value::Array(vec![tagged]))).is_err());
}

#[test]
fn id_may_be_a_text_and_unknown_members_are_ignored() {
    let id = Uuid::new_v4();
    let bytes = body(vec![
        ("extra", ciborium::Value::Null),
        ("t", ciborium::Value::Text("pq_status".into())),
        ("id", ciborium::Value::Text(id.to_string())),
    ]);
    assert_eq!(decode_frame(&bytes).unwrap(), Message::PqStatus { id: id.as_u128() });
}

#[test]
fn missing_repeated_and_unknown_members_are_refused() {
    let t = |name: &str| ("t", ciborium::Value::Text(name.into()));
    let id = ("id", ciborium::Value::Bytes(vec![0; 16]));
    assert!(matches!(decode_frame(&body(vec![t("pq_status")])), Err(FrameError::Decode(_))));
    assert!(matches!(
        decode_frame(&body(vec![t("pq_status"), id.clone(), id.clone()])),
        Err(FrameError::Decode(_))
    ));
    assert!(matches!(
        decode_frame(&body(vec![t("nonsense"), id.clone()])),
        Err(FrameError::Decode(_))
    ));
    let long = ("version", ciborium::Value::Integer(u64::MAX.into()));
    assert!(matches!(decode_frame(&body(vec![t("hello"), long])), Err(FrameError::Decode(_))));
}

#[test]
fn only_hello_has_no_id() {
    assert_eq!(Message::Hello { version: 2 }.id(), None);
    assert_eq!(Message::ReloadConfig { id: 5 }.id(), Some(5));
}

#[test]
fn length_of_a_frame_is_bounded() {
    assert_eq!(frame_length(&[0, 0, 1, 2]).unwrap(), 258);
    assert_eq!(frame_length(&[1, 0, 0, 0]).unwrap(), MAX_FRAME);
    assert!(matches!(frame_length(&[1, 0, 0, 1]), Err(FrameError::TooLarge(n)) if n == MAX_FRAME + 1));
}

#[test]
fn message_that_is_too_large_is_refused() {
    let msg = Message::ServiceRequest { id: 1, service: "s".into(), payload: vec![255; MAX_FRAME / 2 + 1] };
    assert!(matches!(encode_frame(&msg), Err(FrameError::TooLarge(n)) if n > MAX_FRAME));
}

#[test]
fn every_frame_error_has_a_text() {
    assert_eq!(FrameError::Io("x".into()).text(), "io error: x");
    assert_eq!(FrameError::TooLarge(16777217).text(), "frame too large: 16777217 bytes");
    assert_eq!(FrameError::Encode("x".into()).text(), "cbor encode error: x");
    assert_eq!(FrameError::Decode("x".into()).text(), "cbor decode error: x");
}
