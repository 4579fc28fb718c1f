use logsearch::frame::{decode_frame, encode_frame, length_prefix, payload_length, Deframed, FrameError, DEFAULT_MAX_FRAME_LEN};

const MAX: u32 = DEFAULT_MAX_FRAME_LEN;

#[test]
fn length_prefix_is_big_endian() {
    assert_eq!(length_prefix(0x01020304), [1, 2, 3, 4]);
    assert_eq!(length_prefix(5), [0, 0, 0, 5]);
}

#[test]
fn encode_prefixes_payload_length() {
    let framed = encode_frame(b"hello", MAX).unwrap();
    assert_eq!(framed, vec![0, 0, 0, 5, b'h', b'e', b'l', b'l', b'o']);
}

#[test]
fn frame_round_trip_keeps_envelope_bytes() {
    let envelope = br#"{"SearchResponse":{"id":"a","payload":[{"n":"1"}]}}"#.to_vec();
    let mut buf = encode_frame(&envelope, MAX).unwrap();
    buf.extend_from_slice(&[9, 9, 9]);
    match decode_frame(&buf, MAX) {
        Deframed::Frame { payload, used } => {
            assert_eq!(payload, envelope);
            assert_eq!(used, 4 + envelope.len());
        }
        other => panic!("unexpected {:?}", other),
    }
}

#[test]
fn empty_payload_round_trips() {
    let buf = encode_frame(&[], MAX).unwrap();
    assert_eq!(buf, vec![0, 0, 0, 0]);
    match decode_frame(&buf, MAX) {
        Deframed::Frame { payload, used } => {
            assert!(payload.is_empty());
            assert_eq!(used, 4);
        }
        other => panic!("unexpected {:?}", other),
    }
}

#[test]
fn partial_frame_is_incomplete() {
    assert!(matches!(decode_frame(&[0, 0], MAX), Deframed::Incomplete));
    assert!(matches!(decode_frame(&[0, 0, 0, 3, b'a'], MAX), Deframed::Incomplete));
}

#[test]
fn oversize_declared_length_is_rejected() {
    assert!(matches!(decode_frame(&[0x01, 0x00, 0x00, 0x01], MAX), Deframed::Oversize));
    assert_eq!(payload_length(&[0x01, 0x00, 0x00, 0x01], MAX), Err(FrameError::Oversize));
    assert_eq!(payload_length(&[0x01, 0x00, 0x00, 0x00], MAX), Ok(MAX as usize));
}

#[test]
fn oversize_payload_is_not_framed() {
    let big = vec![0u8; MAX as usize + 1];
    assert_eq!(encode_frame(&big, MAX), Err(FrameError::Oversize));
}

#[test]
fn smaller_ceiling_applies_to_both_sides() {
    assert_eq!(encode_frame(b"abcd", 3), Err(FrameError::Oversize));
    let buf = encode_frame(b"abc", 3).unwrap();
    assert!(matches!(decode_frame(&buf, 2), Deframed::Oversize));
    assert!(matches!(decode_frame(&buf, 3), Deframed::Frame { .. }));
}
