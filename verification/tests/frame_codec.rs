//! The frame codec: header encoding, flag bits, opcode bytes, and the
//! whole-frame round trip.

use scylla_rs::connect::{auth_response_plain, options_body, startup_body};
use scylla_rs::frame::{Frame, FrameBuilder};
use scylla_rs::header::{Direction, Header, HeaderFlags, Version};
use scylla_rs::opcode::OpCode;

#[test]
fn header_round_trip() {
    let mut h = Header::from_opcode(OpCode::Query);
    h.set_stream(0x1234);
    h.set_body_len(0x00abcdef);
    h.set_compression(true);
    h.set_warning(true);
    let bytes = h.to_bytes();
    assert_eq!(bytes, vec![0x04, 0x09, 0x12, 0x34, 0x07, 0x00, 0xab, 0xcd, 0xef]);
    let back = Header::from_bytes(&bytes).unwrap();
    assert_eq!(back.stream(), 0x1234);
    assert_eq!(back.body_len(), 0x00abcdef);
    assert_eq!(back.opcode(), OpCode::Query);
    assert!(back.compression());
    assert!(back.warning());
    assert!(!back.tracing());
    assert!(!back.custom_payload());
}

#[test]
fn header_rejects_bad_input() {
    assert!(Header::from_bytes(&[0x04, 0x00, 0x00]).is_err());
    // 0x11 is not an opcode.
    assert!(Header::from_bytes(&[0x04, 0x00, 0x00, 0x00, 0x11, 0, 0, 0, 0]).is_err());
}

#[test]
fn direction_from_version_byte() {
    assert_eq!(Version(0x04).direction(), Direction::Request);
    assert_eq!(Version(0x84).direction(), Direction::Response);
    assert_eq!(Version(0x84).version(), 4);
}

#[test]
fn flag_bits_are_independent() {
    let mut f = HeaderFlags(0);
    f.set_tracing(true);
    f.set_custom_payload(true);
    assert!(!f.compression());
    assert!(f.tracing());
    assert!(f.custom_payload());
    assert!(!f.warning());
    f.set_tracing(false);
    assert!(f.custom_payload());
    assert!(!f.tracing());
}

#[test]
fn opcode_bytes() {
    assert_eq!(OpCode::Error.to_byte(), 0x00);
    assert_eq!(OpCode::Startup.to_byte(), 0x01);
    assert_eq!(OpCode::Options.to_byte(), 0x05);
    assert_eq!(OpCode::Execute.to_byte(), 0x0A);
    assert_eq!(OpCode::AuthSuccess.to_byte(), 0x10);
    assert_eq!(OpCode::from_byte(0x0D), Some(OpCode::Batch));
    assert_eq!(OpCode::from_byte(0x04), None);
    assert_eq!(OpCode::from_byte(0x42), None);
}

#[test]
fn frame_round_trip() {
    let f = Frame {
        version: Version(0x04),
        flags: HeaderFlags(0),
        stream: 7,
        opcode: OpCode::Query,
        body: vec![1, 2, 3, 4, 5],
    };
    let bytes = f.encode();
    assert_eq!(bytes.len(), 14);
    let back = Frame::decode(&bytes).unwrap();
    assert_eq!(back.stream, 7);
    assert_eq!(back.opcode, OpCode::Query);
    assert_eq!(back.body, vec![1, 2, 3, 4, 5]);
    assert_eq!(back.version, Version(0x04));
}

#[test]
fn frame_decode_rejects_length_mismatch() {
    let f = Frame {
        version: Version(0x04),
        flags: HeaderFlags(0),
        stream: 1,
        opcode: OpCode::Ready,
        body: vec![9, 9],
    };
    let mut bytes = f.encode();
    bytes.push(0);
    assert!(Frame::decode(&bytes).is_err());
    assert!(Frame::decode(&bytes[..4]).is_err());
}

#[test]
fn negotiation_bodies() {
    assert!(options_body().is_empty());
    // STARTUP with no compression: one map entry, CQL_VERSION = 3.0.0.
    let mut expected = vec![0, 1];
    expected.extend_from_slice(&[0, 11]);
    expected.extend_from_slice(b"CQL_VERSION");
    expected.extend_from_slice(&[0, 5]);
    expected.extend_from_slice(b"3.0.0");
    assert_eq!(startup_body(None), expected);
    // With compression the map gains one entry.
    let with_lz4 = startup_body(Some("lz4"));
    assert_eq!(&with_lz4[0..2], &[0, 2]);
    assert!(with_lz4.len() > expected.len());
    // The plaintext token is `0 user 0 password` behind its length.
    let auth = auth_response_plain("user", "pass");
    let mut expected_auth = vec![0, 0, 0, 10, 0];
    expected_auth.extend_from_slice(b"user");
    expected_auth.push(0);
    expected_auth.extend_from_slice(b"pass");
    assert_eq!(auth, expected_auth);
}

#[test]
fn frame_builder_layout() {
    let built = FrameBuilder::build([0x04, 0x00, 0x00, 0x09, 0x07], vec![0xaa, 0xbb]);
    assert_eq!(built, vec![0x04, 0x00, 0x00, 0x09, 0x07, 0x00, 0x00, 0x00, 0x02, 0xaa, 0xbb]);
}
