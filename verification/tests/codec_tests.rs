use mux_core::codec::{CodecError, DecodedPdu, Pdu, MAX_DATA_LEN};

fn pdu(ident: u64, data: &[u8]) -> Pdu {
    Pdu { ident, data: data.to_vec() }
}

#[test]
fn encode_gives_exact_bytes() {
    let bytes = pdu(7, &[0xAA, 0xBB]).encode(1).unwrap();
    assert_eq!(
        bytes,
        vec![0, 0, 0, 18, 0, 0, 0, 0, 0, 0, 0, 1, 0, 0, 0, 0, 0, 0, 0, 7, 0xAA, 0xBB]
    );
}

#[test]
fn encode_is_big_endian_in_every_byte() {
    let bytes = pdu(0x1112131415161718, &[]).encode(0x0102030405060708).unwrap();
    assert_eq!(
        bytes,
        vec![
            0, 0, 0, 16, 1, 2, 3, 4, 5, 6, 7, 8, 0x11, 0x12, 0x13, 0x14, 0x15, 0x16, 0x17, 0x18
        ]
    );
}

#[test]
fn encode_length_prefix_counts_body() {
    let body = vec![9u8; 0x01_02_03];
    let bytes = pdu(0, &body).encode(0).unwrap();
    assert_eq!(&bytes[0..4], &[0, 0x01, 0x02, 0x13]);
    assert_eq!(bytes.len(), 20 + 0x01_02_03);
}

#[test]
fn encode_extreme_serial_and_ident() {
    let bytes = pdu(u64::MAX, &[1]).encode(u64::MAX).unwrap();
    let mut expected = vec![0, 0, 0, 17];
    expected.extend_from_slice(&[0xFF; 16]);
    expected.push(1);
    assert_eq!(bytes, expected);
}

#[test]
fn encode_refuses_oversized_body() {
    let body = vec![0u8; MAX_DATA_LEN + 1];
    assert_eq!(pdu(1, &body).encode(1), Err(CodecError::FrameTooLarge));
}

#[test]
fn encode_accepts_largest_body() {
    let body = vec![3u8; MAX_DATA_LEN];
    let bytes = pdu(1, &body).encode(2).unwrap();
    assert_eq!(&bytes[0..4], &[1, 0, 0, 16]);
    let mut buffer = bytes;
    let decoded = Pdu::stream_decode(&mut buffer).unwrap().unwrap();
    assert_eq!(decoded.pdu.data.len(), MAX_DATA_LEN);
    assert!(buffer.is_empty());
}

#[test]
fn decode_round_trip() {
    let message = pdu(42, b"hello");
    let mut buffer = message.encode(77).unwrap();
    let decoded = Pdu::stream_decode(&mut buffer).unwrap();
    assert_eq!(decoded, Some(DecodedPdu { serial: 77, pdu: message }));
    assert!(buffer.is_empty());
}

#[test]
fn decode_empty_buffer_needs_more() {
    let mut buffer: Vec<u8> = Vec::new();
    assert_eq!(Pdu::stream_decode(&mut buffer), Ok(None));
    assert!(buffer.is_empty());
}

#[test]
fn decode_every_proper_prefix_needs_more() {
    let wire = pdu(5, &[1, 2, 3, 4]).encode(6).unwrap();
    for k in 0..wire.len() {
        let mut buffer = wire[..k].to_vec();
        assert_eq!(Pdu::stream_decode(&mut buffer), Ok(None));
        assert_eq!(buffer, wire[..k].to_vec());
    }
}

#[test]
fn decode_leaves_following_bytes() {
    let mut buffer = pdu(5, &[1, 2]).encode(6).unwrap();
    buffer.extend_from_slice(&[0, 0, 0]);
    let decoded = Pdu::stream_decode(&mut buffer).unwrap().unwrap();
    assert_eq!(decoded, DecodedPdu { serial: 6, pdu: pdu(5, &[1, 2]) });
    assert_eq!(buffer, vec![0, 0, 0]);
}

#[test]
fn decode_two_frames_in_turn() {
    let mut buffer = pdu(1, b"a").encode(10).unwrap();
    buffer.extend(pdu(2, b"bc").encode(11).unwrap());
    let first = Pdu::stream_decode(&mut buffer).unwrap().unwrap();
    let second = Pdu::stream_decode(&mut buffer).unwrap().unwrap();
    assert_eq!(first, DecodedPdu { serial: 10, pdu: pdu(1, b"a") });
    assert_eq!(second, DecodedPdu { serial: 11, pdu: pdu(2, b"bc") });
    assert_eq!(Pdu::stream_decode(&mut buffer), Ok(None));
}

#[test]
fn decode_rejects_short_length() {
    let mut buffer = vec![0, 0, 0, 15, 1, 2, 3];
    assert_eq!(Pdu::stream_decode(&mut buffer), Err(CodecError::FrameTooShort));
    assert_eq!(buffer, vec![0, 0, 0, 15, 1, 2, 3]);
}

#[test]
fn decode_rejects_zero_length() {
    let mut buffer = vec![0, 0, 0, 0];
    assert_eq!(Pdu::stream_decode(&mut buffer), Err(CodecError::FrameTooShort));
}

#[test]
fn decode_rejects_oversized_length() {
    let mut buffer = vec![1, 0, 0, 17];
    assert_eq!(Pdu::stream_decode(&mut buffer), Err(CodecError::FrameTooLarge));
    assert_eq!(buffer, vec![1, 0, 0, 17]);
    let mut buffer = vec![0xFF, 0xFF, 0xFF, 0xFF, 0];
    assert_eq!(Pdu::stream_decode(&mut buffer), Err(CodecError::FrameTooLarge));
}

#[test]
fn decode_accepts_smallest_frame() {
    let mut buffer = vec![0, 0, 0, 16, 0, 0, 0, 0, 0, 0, 1, 0, 0, 0, 0, 0, 0, 0, 2, 0];
    let decoded = Pdu::stream_decode(&mut buffer).unwrap().unwrap();
    assert_eq!(decoded, DecodedPdu { serial: 256, pdu: pdu(512, &[]) });
    assert!(buffer.is_empty());
}

#[test]
fn decode_waits_for_announced_body() {
    let mut buffer = vec![1, 0, 0, 16, 0, 0, 0, 0];
    assert_eq!(Pdu::stream_decode(&mut buffer), Ok(None));
    assert_eq!(buffer.len(), 8);
}
