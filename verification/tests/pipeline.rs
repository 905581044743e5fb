//! Tests of the full encode / decode pipeline, with the real hash and
//! authenticated-encryption crates linked in.
use steg::StegError;
use steg::{decode, encode, storage_capacity, unwrap_payload, wrap_payload};

#[test]
fn capacity_values() {
    assert_eq!(storage_capacity(0), 0);
    assert_eq!(storage_capacity(47), 0);
    assert_eq!(storage_capacity(48), 0);
    assert_eq!(storage_capacity(56), 1);
    assert_eq!(storage_capacity(800), 94);
    assert_eq!(storage_capacity(807), 94);
}

#[test]
fn plain_round_trip() {
    let mut carrier: Vec<u8> = (0..=255u8).cycle().take(400).collect();
    let payload = b"hidden bytes".to_vec();
    assert_eq!(encode(&mut carrier, &payload, None), Ok(()));
    assert_eq!(decode(&carrier, None), Ok(payload));
}

#[test]
fn zero_length_round_trip() {
    let mut carrier = vec![0xC3u8; 100];
    assert_eq!(encode(&mut carrier, &[], None), Ok(()));
    assert_eq!(decode(&carrier, None), Ok(vec![]));
    // A key on decode is harmless when the flag byte says plaintext.
    assert_eq!(decode(&carrier, Some(b"key".as_slice())), Ok(vec![]));
}

#[test]
fn carrier_bits_preserved_by_encode() {
    let original: Vec<u8> = (0..=255u8).collect();
    let mut carrier = original.clone();
    assert_eq!(encode(&mut carrier, &[0xF0, 0x0F], None), Ok(()));
    assert_eq!(carrier.len(), original.len());
    for i in 0..carrier.len() {
        assert_eq!(carrier[i] >> 1, original[i] >> 1);
    }
}

#[test]
fn capacity_boundary_exact() {
    // 160 carrier bytes hold 160/8 - 6 = 14 framed bytes: 13 payload bytes
    // plus the flag byte fit exactly.
    let original = vec![0x55u8; 160];
    let mut carrier = original.clone();
    assert_eq!(encode(&mut carrier, &[7u8; 13], None), Ok(()));
    assert_eq!(decode(&carrier, None), Ok(vec![7u8; 13]));

    // One payload byte more must be refused, with the carrier untouched.
    let mut carrier = original.clone();
    assert_eq!(
        encode(&mut carrier, &[7u8; 14], None),
        Err(StegError::CapacityExceeded)
    );
    assert_eq!(carrier, original);
}

#[test]
fn undersized_carrier_refused() {
    let original = vec![1u8; 40];
    let mut carrier = original.clone();
    assert_eq!(
        encode(&mut carrier, &[], None),
        Err(StegError::CapacityExceeded)
    );
    assert_eq!(carrier, original);
}

#[test]
fn decoding_plain_carrier_fails() {
    let carrier = vec![0u8; 100];
    assert_eq!(decode(&carrier, None), Err(StegError::NotSteganographic));
    let carrier = vec![0u8; 30];
    assert_eq!(decode(&carrier, None), Err(StegError::MalformedStream));
}

#[test]
fn truncated_carrier_fails() {
    let mut carrier = vec![9u8; 400];
    assert_eq!(encode(&mut carrier, &[1, 2, 3, 4], None), Ok(()));
    // Cut the carrier inside the payload bits.
    carrier.truncate(60);
    assert_eq!(decode(&carrier, None), Err(StegError::TruncatedPayload));
}

#[test]
fn encrypted_round_trip() {
    let mut carrier: Vec<u8> = (0..=255u8).cycle().take(800).collect();
    let payload = b"top secret".to_vec();
    let key = b"correct horse battery staple".to_vec();
    assert_eq!(encode(&mut carrier, &payload, Some(key.as_slice())), Ok(()));
    assert_eq!(decode(&carrier, Some(key.as_slice())), Ok(payload));
}

#[test]
fn encrypted_empty_round_trip() {
    let mut carrier = vec![0xA7u8; 800];
    let key = b"k".to_vec();
    assert_eq!(encode(&mut carrier, &[], Some(key.as_slice())), Ok(()));
    assert_eq!(decode(&carrier, Some(key.as_slice())), Ok(vec![]));
}

#[test]
fn missing_key_reported() {
    let mut carrier = vec![0x11u8; 800];
    assert_eq!(encode(&mut carrier, b"secret", Some(b"key".as_slice())), Ok(()));
    assert_eq!(decode(&carrier, None), Err(StegError::MissingKey));
}

#[test]
fn wrong_key_fails_decryption() {
    let mut carrier = vec![0x11u8; 800];
    assert_eq!(encode(&mut carrier, b"secret", Some(b"key".as_slice())), Ok(()));
    assert_eq!(
        decode(&carrier, Some(b"other key".as_slice())),
        Err(StegError::DecryptionFailed)
    );
}

#[test]
fn keyed_capacity_boundary_exact() {
    // 400 carrier bytes hold 44 framed bytes: 15 payload bytes plus the
    // flag, nonce and tag overhead of 29 fit exactly.
    let mut carrier = vec![0x55u8; 400];
    assert_eq!(encode(&mut carrier, &[3u8; 15], Some(b"key".as_slice())), Ok(()));
    assert_eq!(decode(&carrier, Some(b"key".as_slice())), Ok(vec![3u8; 15]));

    let original = vec![0x55u8; 400];
    let mut carrier = original.clone();
    assert_eq!(
        encode(&mut carrier, &[3u8; 16], Some(b"key".as_slice())),
        Err(StegError::CapacityExceeded)
    );
    assert_eq!(carrier, original);
}

#[test]
fn wrap_and_unwrap_plain() {
    let w = wrap_payload(&[10, 20, 30], None);
    assert_eq!(w, vec![0, 10, 20, 30]);
    assert_eq!(unwrap_payload(&w, None), Ok(vec![10, 20, 30]));
}

#[test]
fn wrap_and_unwrap_keyed() {
    let w = wrap_payload(&[10, 20, 30], Some(b"key".as_slice()));
    assert_eq!(w.len(), 3 + 29);
    assert_eq!(w[0], 1);
    // The ciphertext carries a 16-byte tag beyond the payload bytes.
    assert_eq!(w.len() - 13, 3 + 16);
    assert_eq!(unwrap_payload(&w, Some(b"key".as_slice())), Ok(vec![10, 20, 30]));
    assert_eq!(unwrap_payload(&w, None), Err(StegError::MissingKey));
    assert_eq!(
        unwrap_payload(&w, Some(b"wrong".as_slice())),
        Err(StegError::DecryptionFailed)
    );
}

#[test]
fn unwrap_rejects_empty_and_short() {
    assert_eq!(unwrap_payload(&[], None), Err(StegError::MalformedStream));
    assert_eq!(
        unwrap_payload(&[1, 2, 3], Some(b"key".as_slice())),
        Err(StegError::MalformedStream)
    );
}

#[test]
fn unwrap_treats_other_flags_as_plain() {
    assert_eq!(unwrap_payload(&[0, 5, 6], None), Ok(vec![5, 6]));
    assert_eq!(unwrap_payload(&[2, 5, 6], None), Ok(vec![5, 6]));
}
