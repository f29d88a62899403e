use mctrlrs::error::{DecodeError, RconError};
use mctrlrs::packet::{decode_size, PacketType, RconPacket, MAX_CLIENT_PAYLOAD_SIZE};

fn body(id: i32, kind: i32, payload: &[u8]) -> Vec<u8> {
    let mut b = Vec::new();
    b.extend(id.to_le_bytes());
    b.extend(kind.to_le_bytes());
    b.extend(payload);
    b.extend([0, 0]);
    b
}

#[test]
fn encode_command_frame_layout() {
    let frame = RconPacket::command(5, "list".to_string()).unwrap().encode();
    assert_eq!(
        frame,
        vec![14, 0, 0, 0, 5, 0, 0, 0, 2, 0, 0, 0, b'l', b'i', b's', b't', 0, 0]
    );
}

#[test]
fn encode_authentication_frame_layout() {
    let frame = RconPacket::authentication(0, "pw".to_string()).unwrap().encode();
    assert_eq!(frame, vec![12, 0, 0, 0, 0, 0, 0, 0, 3, 0, 0, 0, b'p', b'w', 0, 0]);
}

#[test]
fn encode_probe_is_empty_response() {
    let frame = RconPacket::check(7).unwrap().encode();
    assert_eq!(frame, vec![10, 0, 0, 0, 7, 0, 0, 0, 0, 0, 0, 0, 0, 0]);
}

#[test]
fn negative_id_is_refused() {
    let r = RconPacket::command(-3, "list".to_string());
    assert!(matches!(r, Err(RconError::InvalidId(-3))));
}

#[test]
fn payload_limit_is_inclusive() {
    let ok = RconPacket::command(1, "a".repeat(MAX_CLIENT_PAYLOAD_SIZE));
    assert!(ok.is_ok());
    let too_big = RconPacket::command(1, "a".repeat(1447));
    assert!(matches!(too_big, Err(RconError::PayloadTooBig(1446, 1447))));
}

#[test]
fn payload_limit_counts_bytes() {
    // 724 two-byte characters make 1448 bytes.
    let r = RconPacket::command(1, "é".repeat(724));
    assert!(matches!(r, Err(RconError::PayloadTooBig(1446, 1448))));
}

#[test]
fn round_trip_command_and_response() {
    for (kind, tag) in [(PacketType::Command, 2), (PacketType::Response, 0)] {
        let packet = RconPacket::new(42, kind, "héllo wörld".to_string()).unwrap();
        let frame = packet.encode();
        let size = decode_size([frame[0], frame[1], frame[2], frame[3]]).unwrap();
        assert_eq!(size as usize, frame.len() - 4);
        assert_eq!(frame[8], tag);
        let back = RconPacket::decode(frame[4..].to_vec()).unwrap();
        assert_eq!(back.id, 42);
        assert_eq!(back.packet_type, kind);
        assert_eq!(back.payload, "héllo wörld");
    }
}

#[test]
fn round_trip_empty_payload() {
    let frame = RconPacket::new(0, PacketType::Response, String::new()).unwrap().encode();
    let back = RconPacket::decode(frame[4..].to_vec()).unwrap();
    assert_eq!(back.id, 0);
    assert_eq!(back.payload, "");
}

#[test]
fn decode_short_buffers_fail() {
    for n in 0..10usize {
        let r = RconPacket::decode(vec![0; n]);
        assert!(matches!(r, Err(RconError::Decode(DecodeError::TooShort(m))) if m == n));
    }
}

#[test]
fn decode_rejects_unknown_type() {
    let r = RconPacket::decode(body(1, 3, b"x"));
    assert!(matches!(r, Err(RconError::Decode(DecodeError::BadType(3)))));
    let r = RconPacket::decode(body(1, 7, b""));
    assert!(matches!(r, Err(RconError::Decode(DecodeError::BadType(7)))));
}

#[test]
fn decode_rejects_bad_utf8() {
    let r = RconPacket::decode(body(1, 0, &[0xff, 0xfe]));
    assert!(matches!(r, Err(RconError::Decode(DecodeError::BadUtf8))));
}

#[test]
fn decode_rejects_missing_padding() {
    let mut b = body(1, 0, b"ok");
    let n = b.len();
    b[n - 1] = 1;
    let r = RconPacket::decode(b);
    assert!(matches!(r, Err(RconError::Decode(DecodeError::MissingPadding))));
}

#[test]
fn decode_reads_negative_id_and_command_type() {
    let p = RconPacket::decode(body(-1, 2, b"")).unwrap();
    assert_eq!(p.id, -1);
    assert_eq!(p.packet_type, PacketType::Command);
}

#[test]
fn size_field_bounds() {
    assert!(matches!(
        decode_size(9i32.to_le_bytes()),
        Err(RconError::Decode(DecodeError::BadSize(9)))
    ));
    assert_eq!(decode_size(10i32.to_le_bytes()).unwrap(), 10);
    assert_eq!(decode_size(4106i32.to_le_bytes()).unwrap(), 4106);
    assert!(matches!(
        decode_size(4107i32.to_le_bytes()),
        Err(RconError::Decode(DecodeError::BadSize(4107)))
    ));
    assert!(matches!(
        decode_size((-5i32).to_le_bytes()),
        Err(RconError::Decode(DecodeError::BadSize(-5)))
    ));
}

#[test]
fn packet_type_codes() {
    assert_eq!(PacketType::Authentication.code(), 3);
    assert_eq!(PacketType::Command.code(), 2);
    assert_eq!(PacketType::Response.code(), 0);
    assert_eq!(PacketType::from_code(0).unwrap(), PacketType::Response);
    assert_eq!(PacketType::from_code(2).unwrap(), PacketType::Command);
    assert!(matches!(
        PacketType::from_code(3),
        Err(RconError::Decode(DecodeError::BadType(3)))
    ));
}
