use lair_keystore::error::LairError;
use lair_keystore::frame::{decode_frame, encode_frame, Frame};

#[test]
fn frame_encodes_little_endian_header() {
    let f = Frame { id: 0x0102, tag: 0x0a0b0c0d, payload: vec![0xaa, 0xbb] };
    let b = encode_frame(&f);
    assert_eq!(
        b,
        vec![
            14, 0, 0, 0, 0, 0, 0, 0, 0x02, 0x01, 0, 0, 0, 0, 0, 0, 0x0d, 0x0c, 0x0b, 0x0a, 0xaa,
            0xbb
        ]
    );
}

#[test]
fn frame_round_trip_with_trailing_bytes() {
    let f = Frame { id: u64::MAX, tag: 7, payload: b"hello".to_vec() };
    let mut b = encode_frame(&f);
    let n = b.len();
    b.extend_from_slice(&[1, 2, 3]);
    let (g, used) = decode_frame(&b).unwrap().unwrap();
    assert_eq!(used, n);
    assert_eq!(g.id, u64::MAX);
    assert_eq!(g.tag, 7);
    assert_eq!(g.payload, b"hello".to_vec());
}

#[test]
fn frame_empty_payload() {
    let f = Frame { id: 3, tag: 4, payload: vec![] };
    let b = encode_frame(&f);
    assert_eq!(b.len(), 20);
    let (g, used) = decode_frame(&b).unwrap().unwrap();
    assert_eq!((g.id, g.tag, g.payload.len(), used), (3, 4, 0, 20));
}

#[test]
fn frame_incomplete_is_none() {
    let f = Frame { id: 1, tag: 2, payload: vec![5; 10] };
    let b = encode_frame(&f);
    assert!(decode_frame(&b[..5]).unwrap().is_none());
    assert!(decode_frame(&b[..b.len() - 1]).unwrap().is_none());
    assert!(decode_frame(&[]).unwrap().is_none());
}

#[test]
fn frame_short_length_is_protocol_violation() {
    let b = [11u8, 0, 0, 0, 0, 0, 0, 0, 1, 2, 3, 4, 5, 6, 7, 8, 9, 10, 11];
    assert!(matches!(decode_frame(&b), Err(LairError::ProtocolViolation)));
}
