use chat_relay::codec::{Packet, COMMAND, LOGIN, MAX_PAYLOAD};
use chat_relay::error::RelayError;

fn packet(request_id: i32, request_type: i32, payload: &str) -> Packet {
    Packet { request_id, request_type, payload: payload.to_string() }
}

#[test]
fn frame_bytes_are_exact() {
    let frame = packet(1, COMMAND, "hi").write().unwrap();
    assert_eq!(frame, vec![12, 0, 0, 0, 1, 0, 0, 0, 2, 0, 0, 0, b'h', b'i', 0, 0]);
}

#[test]
fn frame_of_negative_id_is_little_endian() {
    let frame = packet(-1, LOGIN, "").write().unwrap();
    assert_eq!(frame, vec![10, 0, 0, 0, 0xff, 0xff, 0xff, 0xff, 3, 0, 0, 0, 0, 0]);
}

#[test]
fn decode_of_encode_gives_packet_back() {
    let original = packet(0x1234_5678, COMMAND, "say héllo \u{1F600}");
    let mut frame = original.write().unwrap();
    let used = frame.len();
    frame.extend_from_slice(&[9, 9, 9]);
    let (p, n) = Packet::read(&frame).unwrap().unwrap();
    assert_eq!(n, used);
    assert_eq!(p.request_id, 0x1234_5678);
    assert_eq!(p.request_type, COMMAND);
    assert_eq!(p.payload, "say héllo \u{1F600}");
}

#[test]
fn payload_of_exactly_max_size_round_trips() {
    let text = "a".repeat(MAX_PAYLOAD);
    let frame = packet(7, COMMAND, &text).write().unwrap();
    let (p, n) = Packet::read(&frame).unwrap().unwrap();
    assert_eq!(n, frame.len());
    assert_eq!(p.payload, text);
}

#[test]
fn oversized_payload_is_a_protocol_violation() {
    let text = "a".repeat(MAX_PAYLOAD + 1);
    let frame = packet(7, COMMAND, &text).write().unwrap();
    assert_eq!(Packet::read(&frame).err(), Some(RelayError::ProtocolViolation));
    // the verdict comes from the first bytes alone
    assert_eq!(Packet::read(&frame[..12 + MAX_PAYLOAD + 1]).err(), Some(RelayError::ProtocolViolation));
}

#[test]
fn partial_frames_need_more_bytes() {
    let frame = packet(5, COMMAND, "list").write().unwrap();
    for cut in 0..frame.len() {
        assert!(matches!(Packet::read(&frame[..cut]), Ok(None)), "cut at {}", cut);
    }
}

#[test]
fn invalid_utf8_payload_is_a_protocol_violation() {
    let bytes = vec![12, 0, 0, 0, 1, 0, 0, 0, 0, 0, 0, 0, 0xff, 0xfe, 0, 0];
    assert_eq!(Packet::read(&bytes).err(), Some(RelayError::ProtocolViolation));
}

#[test]
fn response_kind_is_not_validated() {
    let bytes = vec![10, 0, 0, 0, 4, 0, 0, 0, 99, 0, 0, 0, 0, 0];
    let (p, n) = Packet::read(&bytes).unwrap().unwrap();
    assert_eq!((p.request_id, p.request_type, p.payload.as_str(), n), (4, 99, "", 14));
}
