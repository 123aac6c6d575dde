use bytes::{BufMut, Bytes, BytesMut};
use rahgozar::frame::{
    DecodeError, FrameKind, WireFrame, HEADER_LEN, MAX_PAYLOAD, WIRE_VERSION,
};

fn frame_with(kind: FrameKind, payload: &[u8]) -> WireFrame {
    WireFrame {
        version: WIRE_VERSION,
        kind,
        sid: [0xab; 16],
        seq: 7,
        payload: Bytes::copy_from_slice(payload),
    }
}

#[test]
fn roundtrip_all_kinds() {
    for kind in [
        FrameKind::Hello,
        FrameKind::Connect,
        FrameKind::Data,
        FrameKind::Eof,
        FrameKind::Close,
        FrameKind::Error,
    ] {
        let f = frame_with(kind, b"hello world");
        let wire = f.encode();
        let decoded = WireFrame::decode(&wire).expect("decode roundtrip");
        assert_eq!(decoded, f);
    }
}

#[test]
fn decode_rejects_short_input() {
    let buf = [0u8; HEADER_LEN - 1];
    let err = WireFrame::decode(&buf).unwrap_err();
    assert_eq!(err, DecodeError::TooShort(HEADER_LEN - 1));
}

#[test]
fn decode_rejects_unknown_version() {
    let mut buf = frame_with(FrameKind::Data, b"x").encode();
    buf[0] = 0xff;
    let err = WireFrame::decode(&buf).unwrap_err();
    assert_eq!(err, DecodeError::UnsupportedVersion(0xff));
}

#[test]
fn decode_rejects_unknown_kind() {
    let mut buf = frame_with(FrameKind::Data, b"x").encode();
    buf[1] = 0x7f;
    let err = WireFrame::decode(&buf).unwrap_err();
    assert_eq!(err, DecodeError::UnknownKind(0x7f));
}

#[test]
fn decode_rejects_payload_too_large() {
    let mut buf = BytesMut::new();
    buf.put_u8(WIRE_VERSION);
    buf.put_u8(FrameKind::Data.to_u8());
    buf.put_slice(&[0u8; 16]);
    buf.put_u64(0);
    buf.put_u32(MAX_PAYLOAD + 1);
    let err = WireFrame::decode(&buf).unwrap_err();
    assert_eq!(err, DecodeError::PayloadTooLarge(MAX_PAYLOAD + 1));
}

#[test]
fn decode_rejects_truncated_payload() {
    let mut buf = BytesMut::new();
    buf.put_u8(WIRE_VERSION);
    buf.put_u8(FrameKind::Data.to_u8());
    buf.put_slice(&[0u8; 16]);
    buf.put_u64(0);
    buf.put_u32(10);
    buf.put_slice(b"only5");
    let err = WireFrame::decode(&buf).unwrap_err();
    assert_eq!(
        err,
        DecodeError::PayloadTruncated {
            declared: 10,
            available: 5,
        }
    );
}

#[test]
fn empty_payload_is_legal() {
    let f = frame_with(FrameKind::Eof, b"");
    let wire = f.encode();
    assert_eq!(wire.len(), HEADER_LEN);
    let decoded = WireFrame::decode(&wire).expect("empty payload round-trips");
    assert_eq!(decoded, f);
}

#[test]
fn header_layout_is_big_endian() {
    let f = WireFrame {
        version: WIRE_VERSION,
        kind: FrameKind::Connect,
        sid: [1, 2, 3, 4, 5, 6, 7, 8, 9, 10, 11, 12, 13, 14, 15, 16],
        seq: 0x0102_0304_0506_0708,
        payload: Bytes::from_static(b"ab"),
    };
    let wire = f.encode();
    assert_eq!(wire[0], WIRE_VERSION);
    assert_eq!(wire[1], FrameKind::Connect.to_u8());
    assert_eq!(&wire[2..18], &[1, 2, 3, 4, 5, 6, 7, 8, 9, 10, 11, 12, 13, 14, 15, 16]);
    assert_eq!(&wire[18..26], &[1, 2, 3, 4, 5, 6, 7, 8]);
    assert_eq!(&wire[26..30], &[0, 0, 0, 2]);
    assert_eq!(&wire[30..], b"ab");
}

#[test]
fn kinds_have_their_numbers() {
    for b in 0u8..=255 {
        match FrameKind::from_u8(b) {
            Some(k) => assert_eq!(k.to_u8(), b),
            None => assert!(b == 0 || b > 6),
        }
    }
    assert_eq!(FrameKind::from_u8(3), Some(FrameKind::Data));
}

#[test]
fn trailing_bytes_are_ignored_and_prefixes_refused() {
    let f = frame_with(FrameKind::Data, b"abc");
    let wire = f.encode();
    let mut longer = wire.to_vec();
    longer.extend_from_slice(b"tail");
    assert_eq!(WireFrame::decode(&longer).unwrap(), f);
    for n in 0..wire.len() {
        assert!(WireFrame::decode(&wire[..n]).is_err());
    }
}

#[test]
fn decode_errors_say_what_is_wrong() {
    assert!(DecodeError::TooShort(3).message().contains('3'));
    assert!(DecodeError::UnsupportedVersion(0xff).message().len() > 0);
    assert!(DecodeError::UnknownKind(0x7f).message().len() > 0);
    assert!(DecodeError::PayloadTooLarge(9).message().contains('9'));
    let m = DecodeError::PayloadTruncated {
        declared: 10,
        available: 5,
    }
    .message();
    assert!(m.contains("10") && m.contains('5'));
}
