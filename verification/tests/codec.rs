//! Tests of the bit converters and the framer.
use steg::StegError;
use steg::{bits_to_u16, bits_to_u8, convert_from_bits, convert_to_bits, u16_to_bits, u8_to_bits};

fn marker() -> Vec<u8> {
    let mut m = u8_to_bits(b's');
    m.extend_from_slice(&u8_to_bits(b't'));
    m.extend_from_slice(&u8_to_bits(b'e'));
    m.extend_from_slice(&u8_to_bits(b'g'));
    m
}

#[test]
fn u8_bits_exact() {
    assert_eq!(u8_to_bits(0x73), vec![0, 1, 1, 1, 0, 0, 1, 1]);
    assert_eq!(u8_to_bits(0x00), vec![0; 8]);
    assert_eq!(u8_to_bits(0xFF), vec![1; 8]);
    assert_eq!(u8_to_bits(0x80), vec![1, 0, 0, 0, 0, 0, 0, 0]);
}

#[test]
fn u8_round_trip() {
    for b in 0..=255u8 {
        assert_eq!(bits_to_u8(&u8_to_bits(b)), b);
    }
}

#[test]
fn u16_bits_exact() {
    assert_eq!(
        u16_to_bits(0x8001),
        vec![1, 0, 0, 0, 0, 0, 0, 0, 0, 0, 0, 0, 0, 0, 0, 1]
    );
    assert_eq!(u16_to_bits(0), vec![0; 16]);
}

#[test]
fn u16_round_trip() {
    for w in [0u16, 1, 2, 255, 256, 0x1234, 0x7FFF, 0x8000, 0xFFFF] {
        assert_eq!(bits_to_u16(&u16_to_bits(w)), w);
    }
}

#[test]
fn stream_layout_exact() {
    let bits = convert_to_bits(&[0xA5]);
    // 32 marker bits, 16 length bits, 8 payload bits.
    assert_eq!(bits.len(), 56);
    assert_eq!(&bits[0..32], marker().as_slice());
    assert_eq!(
        &bits[32..48],
        &[0, 0, 0, 0, 0, 0, 0, 0, 0, 0, 0, 0, 0, 0, 0, 1]
    );
    assert_eq!(&bits[48..56], &[1, 0, 1, 0, 0, 1, 0, 1]);
}

#[test]
fn framer_round_trip() {
    let payload = vec![0u8, 1, 2, 3, 254, 255, 0x73, 42];
    let bits = convert_to_bits(&payload);
    assert_eq!(convert_from_bits(&bits), Ok(payload));
}

#[test]
fn framer_round_trip_empty() {
    let bits = convert_to_bits(&[]);
    assert_eq!(bits.len(), 48);
    assert_eq!(&bits[32..48], &[0u8; 16]);
    assert_eq!(convert_from_bits(&bits), Ok(vec![]));
}

#[test]
fn framer_ignores_excess_bits() {
    let mut bits = convert_to_bits(&[9, 8, 7]);
    bits.extend_from_slice(&[1, 0, 1, 1, 0]);
    assert_eq!(convert_from_bits(&bits), Ok(vec![9, 8, 7]));
}

#[test]
fn short_stream_is_malformed() {
    assert_eq!(convert_from_bits(&[]), Err(StegError::MalformedStream));
    assert_eq!(
        convert_from_bits(&vec![0u8; 47]),
        Err(StegError::MalformedStream)
    );
}

#[test]
fn bad_marker_is_not_steganographic() {
    let zeros = vec![0u8; 48];
    assert_eq!(
        convert_from_bits(&zeros),
        Err(StegError::NotSteganographic)
    );
    let mut bits = convert_to_bits(&[5]);
    bits[31] ^= 1;
    assert_eq!(convert_from_bits(&bits), Err(StegError::NotSteganographic));
}

#[test]
fn short_payload_is_truncated() {
    let bits = convert_to_bits(&[1, 2, 3]);
    assert_eq!(
        convert_from_bits(&bits[..bits.len() - 1]),
        Err(StegError::TruncatedPayload)
    );
    // Framing alone, but a declared length of 1.
    let mut bits = marker();
    bits.extend_from_slice(&u16_to_bits(1));
    assert_eq!(convert_from_bits(&bits), Err(StegError::TruncatedPayload));
}
