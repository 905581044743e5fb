//! The encode / decode / capacity operations: they glue the framer and the
//! bit channel together, enforce the carrier's capacity before any carrier
//! byte is touched, and delegate the optional payload encryption to the
//! external authenticated-encryption transform.
//!
//! The wire format inside the framed payload: the first byte is the
//! encryption flag. A flag of 1 means the next 12 bytes are the nonce and
//! the rest is ciphertext; any other flag value means the rest is the
//! payload itself.
use vstd::prelude::*;

use crate::StegError;
use crate::bits::{
    byte_bit, byte_bits, byte_of_bits, bytes_bits, convert_from_bits, convert_to_bits,
    lemma_byte_roundtrip, lemma_word_roundtrip, marker_bits, spec_decode, spec_stream, word_bit,
    word_bits, word_of_bits,
};
use crate::channel::{extract_lsb, lemma_set_lsb, lsb_seq, modify_lsb, spec_write};
use crate::crypto::{
    aead_ciphertext, aead_plaintext, aes_gcm_decrypt, aes_gcm_encrypt, generate_nonce,
    sha256_digest, sha256_of,
};
use crate::is_bits;

verus! {

/// How many framed payload bytes a carrier of `carrier_len` bytes can hold:
/// one bit per carrier byte, less the 48 bits (6 bytes' worth) of marker
/// and length framing. Negative when the carrier cannot even hold the
/// framing.
pub open spec fn available_bytes(carrier_len: int) -> int {
    carrier_len / 8 - 6
}

/// The length of the framed payload: the payload bytes plus the leading
/// flag byte, and, when a key is used, the 12-byte nonce and the 16-byte
/// authentication tag.
pub open spec fn framed_len(payload_len: int, keyed: bool) -> int {
    payload_len + if keyed {
        29int
    } else {
        1int
    }
}

/// Whether a framed payload of `framed` bytes fits a carrier of
/// `carrier_len` bytes: it must fit the carrier's capacity and its length
/// must fit the 16-bit length field.
pub open spec fn fits(carrier_len: int, framed: int) -> bool {
    framed <= available_bytes(carrier_len) && framed <= 0xFFFF
}

/// The key bytes a caller handed in, if any.
pub open spec fn key_view(key: Option<&[u8]>) -> Option<Seq<u8>> {
    match key {
        Some(k) => Some(k@),
        None => None,
    }
}

/// The result of undoing the encryption-flag wrapping of a framed payload
/// `w` with the optional key: the payload after the flag byte, decrypted
/// when the flag says so.
pub open spec fn spec_unwrap(w: Seq<u8>, key: Option<Seq<u8>>) -> Result<Seq<u8>, StegError> {
    if w.len() == 0 {
        Err(StegError::MalformedStream)
    } else if w[0] != 1 {
        Ok(w.skip(1))
    } else {
        match key {
            None => Err(StegError::MissingKey),
            Some(k) => if w.len() < 13 {
                Err(StegError::MalformedStream)
            } else {
                match aead_plaintext(sha256_of(k), w.subrange(1, 13), w.skip(13)) {
                    Some(p) => Ok(p),
                    None => Err(StegError::DecryptionFailed),
                }
            },
        }
    }
}

/// The whole decode pipeline over a carrier's bytes: read the LSBs, parse
/// the framed stream, and undo the encryption-flag wrapping.
pub open spec fn spec_extract(carrier: Seq<u8>, key: Option<Seq<u8>>) -> Result<
    Seq<u8>,
    StegError,
> {
    match spec_decode(lsb_seq(carrier)) {
        Ok(w) => spec_unwrap(w, key),
        Err(e) => Err(e),
    }
}

/// A bit extracted from a byte or a 16-bit value is 0 or 1.
proof fn lemma_bit_is_bit()
    by (bit_vector)
    ensures
        forall|b: u8, sh: u8| #[trigger] ((b >> sh) & 1) == 0 || ((b >> sh) & 1) == 1,
        forall|w: u16, sh: u16| #[trigger] ((w >> sh) & 1) == 0 || ((w >> sh) & 1) == 1,
{
}

/// Every element of a framed bit stream is a single bit, and the stream's
/// length is the 48 framing bits plus eight bits per payload byte.
pub proof fn lemma_stream_is_bits(p: Seq<u8>)
    requires
        p.len() <= 0xFFFF,
    ensures
        is_bits(spec_stream(p)),
        spec_stream(p).len() == 48 + 8 * p.len(),
{
    lemma_bit_is_bit();
    let s = spec_stream(p);
    assert forall|i: int| 0 <= i < s.len() implies s[i] == 0 || s[i] == 1 by {
        if i < 8 {
            assert(s[i] == byte_bit(0x73, i));
        } else if i < 16 {
            assert(s[i] == byte_bit(0x74, i - 8));
        } else if i < 24 {
            assert(s[i] == byte_bit(0x65, i - 16));
        } else if i < 32 {
            assert(s[i] == byte_bit(0x67, i - 24));
        } else if i < 48 {
            assert(s[i] == word_bit(p.len() as u16, i - 32));
        } else {
            assert(s[i] == byte_bit(p[(i - 48) / 8], (i - 48) % 8));
        }
    }
}

/// Round trip of the codec itself: framing a payload, writing the bits
/// into any carrier large enough, reading the LSBs back and parsing them
/// recovers exactly the payload.
pub proof fn lemma_codec_round_trip(carrier: Seq<u8>, payload: Seq<u8>)
    requires
        payload.len() <= 0xFFFF,
        48 + 8 * payload.len() <= carrier.len(),
    ensures
        spec_decode(lsb_seq(spec_write(carrier, spec_stream(payload)))) == Ok::<
            Seq<u8>,
            StegError,
        >(payload),
{
    let bits = spec_stream(payload);
    lemma_stream_is_bits(payload);
    let got = lsb_seq(spec_write(carrier, bits));
    assert(got.len() == carrier.len());
    assert forall|i: int| 0 <= i < bits.len() implies got[i] == bits[i] by {
        lemma_set_lsb(carrier[i], bits[i]);
    }
    assert forall|i: int| 0 <= i < 32 implies got.subrange(0, 32)[i] == marker_bits()[i] by {
        assert(got[i] == bits[i]);
    }
    assert(got.subrange(0, 32) =~= marker_bits());
    let len_word = payload.len() as u16;
    assert forall|i: int| 0 <= i < 16 implies got.subrange(32, 48)[i] == word_bits(len_word)[i] by {
        assert(got[32 + i] == bits[32 + i]);
    }
    assert(got.subrange(32, 48) =~= word_bits(len_word));
    lemma_word_roundtrip(len_word);
    let n = word_of_bits(got.subrange(32, 48)) as int;
    assert(n == payload.len());
    let decoded = Seq::new(n as nat, |j: int| byte_of_bits(got.subrange(48 + 8 * j, 56 + 8 * j)));
    assert forall|j: int| 0 <= j < n implies decoded[j] == payload[j] by {
        assert forall|k: int| 0 <= k < 8 implies got.subrange(48 + 8 * j, 56 + 8 * j)[k]
            == byte_bits(payload[j])[k] by {
            let idx = 48 + 8 * j + k;
            assert(got[idx] == bits[idx]);
            assert(bits[idx] == bytes_bits(payload)[8 * j + k]);
            assert((8 * j + k) / 8 == j);
            assert((8 * j + k) % 8 == k);
        }
        assert(got.subrange(48 + 8 * j, 56 + 8 * j) =~= byte_bits(payload[j]));
        lemma_byte_roundtrip(payload[j]);
    }
    assert(decoded =~= payload);
}

/// A framed payload of exactly the carrier's available bytes fits; one
/// byte more does not.
pub proof fn lemma_length_boundary(carrier_len: int)
    requires
        0 <= available_bytes(carrier_len),
        available_bytes(carrier_len) <= 0xFFFF,
    ensures
        fits(carrier_len, available_bytes(carrier_len)),
        !fits(carrier_len, available_bytes(carrier_len) + 1),
{
}

/// Fitting the available bytes is the same as the carrier supplying one
/// bit for every bit of the framed stream.
pub proof fn lemma_available(carrier_len: int, framed: int)
    requires
        0 <= carrier_len,
        0 <= framed,
    ensures
        (framed <= available_bytes(carrier_len)) <==> (48 + 8 * framed <= carrier_len),
{
}

/// Decoding a carrier whose first 32 LSBs are not the marker fails with
/// `NotSteganographic`, whatever the rest of the carrier holds and whether
/// or not a key is supplied.
pub proof fn lemma_marker_rejection(carrier: Seq<u8>, key: Option<Seq<u8>>)
    requires
        carrier.len() >= 48,
        lsb_seq(carrier).subrange(0, 32) != marker_bits(),
    ensures
        spec_extract(carrier, key) == Err::<Seq<u8>, StegError>(StegError::NotSteganographic),
{
}

/// Decoding a carrier whose embedded flag byte says the payload is
/// encrypted fails with `MissingKey` when no key is supplied.
pub proof fn lemma_missing_key(carrier: Seq<u8>)
    requires
        spec_decode(lsb_seq(carrier)) matches Ok(w) && w.len() > 0 && w[0] == 1,
    ensures
        spec_extract(carrier, None) == Err::<Seq<u8>, StegError>(StegError::MissingKey),
{
}

/// How many payload bytes (after the optional encryption wrapping) a
/// carrier of `carrier_len` bytes can store; 0 when the carrier cannot
/// even hold the framing.
pub fn storage_capacity(carrier_len: usize) -> (r: usize)
    ensures
        r == if available_bytes(carrier_len as int) >= 0 {
            available_bytes(carrier_len as int)
        } else {
            0
        },
{
    let blocks = carrier_len / 8;
    if blocks >= 6 {
        blocks - 6
    } else {
        0
    }
}

/// Wraps a payload for framing: a leading flag byte, and, when a key is
/// given, the payload replaced by a fresh nonce and its ciphertext under
/// the SHA-256 digest of the key.
pub fn wrap_payload(payload: &[u8], key: Option<&[u8]>) -> (w: Vec<u8>)
    requires
        payload@.len() <= 0xFFFF,
    ensures
        match key_view(key) {
            None => w@ == seq![0u8] + payload@,
            Some(k) => w@.len() == payload@.len() + 29 && w@[0] == 1 && aead_plaintext(
                sha256_of(k),
                w@.subrange(1, 13),
                w@.skip(13),
            ) == Some(payload@),
        },
{
    match key {
        None => {
            let mut w: Vec<u8> = Vec::new();
            w.push(0);
            let mut p = vstd::slice::slice_to_vec(payload);
            w.append(&mut p);
            proof {
                assert(w@ =~= seq![0u8] + payload@);
            }
            w
        },
        Some(k) => {
            let digest = sha256_digest(k);
            let mut nonce = generate_nonce();
            let ghost nonce_spec = nonce@;
            let mut ct = aes_gcm_encrypt(digest.as_slice(), nonce.as_slice(), payload);
            let ghost ct_spec = ct@;
            let mut w: Vec<u8> = Vec::new();
            w.push(1);
            w.append(&mut nonce);
            w.append(&mut ct);
            proof {
                assert(w@.subrange(1, 13) =~= nonce_spec);
                assert(w@.skip(13) =~= ct_spec);
            }
            w
        },
    }
}

/// Undoes the encryption-flag wrapping of a framed payload: strips the
/// flag byte and, when it says the payload is encrypted, requires a key
/// and decrypts the rest.
pub fn unwrap_payload(w: &[u8], key: Option<&[u8]>) -> (r: Result<Vec<u8>, StegError>)
    ensures
        spec_unwrap(w@, key_view(key)) matches Ok(p) ==> r matches Ok(v) && v@ == p,
        spec_unwrap(w@, key_view(key)) matches Err(e) ==> r matches Err(e2) && e2 == e,
{
    if w.len() == 0 {
        return Err(StegError::MalformedStream);
    }
    if w[0] != 1 {
        let rest = vstd::slice::slice_to_vec(vstd::slice::slice_subrange(w, 1, w.len()));
        proof {
            assert(rest@ =~= w@.skip(1));
        }
        return Ok(rest);
    }
    match key {
        None => Err(StegError::MissingKey),
        Some(k) => {
            if w.len() < 13 {
                return Err(StegError::MalformedStream);
            }
            let digest = sha256_digest(k);
            let nonce = vstd::slice::slice_subrange(w, 1, 13);
            let ct = vstd::slice::slice_subrange(w, 13, w.len());
            proof {
                assert(ct@ =~= w@.skip(13));
            }
            match aes_gcm_decrypt(digest.as_slice(), nonce, ct) {
                Some(p) => Ok(p),
                None => Err(StegError::DecryptionFailed),
            }
        },
    }
}

/// Embeds `payload` in the carrier's LSBs, encrypting it first when a key
/// is given. Refuses with `CapacityExceeded`, before any carrier byte is
/// touched, exactly when the framed payload does not fit the carrier.
/// On success the carrier keeps its length and every byte's upper seven
/// bits, and decoding it with the same key yields the payload back.
pub fn encode(carrier: &mut Vec<u8>, payload: &[u8], key: Option<&[u8]>) -> (r: Result<
    (),
    StegError,
>)
    ensures
        !fits(old(carrier)@.len() as int, framed_len(payload@.len() as int, key is Some)) ==> r
            == Err::<(), StegError>(StegError::CapacityExceeded) && final(carrier)@ == old(
            carrier,
        )@,
        fits(old(carrier)@.len() as int, framed_len(payload@.len() as int, key is Some)) ==> {
            &&& r == Ok::<(), StegError>(())
            &&& final(carrier)@.len() == old(carrier)@.len()
            &&& forall|i: int|
                0 <= i < old(carrier)@.len() ==> final(carrier)@[i] >> 1u8 == old(
                    carrier,
                )@[i] >> 1u8
            &&& spec_extract(final(carrier)@, key_view(key)) == Ok::<Seq<u8>, StegError>(payload@)
        },
{
    let overhead: usize = if key.is_some() {
        29
    } else {
        1
    };
    if payload.len() > 0xFFFF - overhead {
        return Err(StegError::CapacityExceeded);
    }
    let framed = payload.len() + overhead;
    let cap = storage_capacity(carrier.len());
    if framed > cap {
        return Err(StegError::CapacityExceeded);
    }
    let w = wrap_payload(payload, key);
    let bits = convert_to_bits(w.as_slice());
    proof {
        lemma_available(carrier@.len() as int, framed as int);
    }
    modify_lsb(carrier, bits.as_slice());
    proof {
        lemma_codec_round_trip(old(carrier)@, w@);
        match key_view(key) {
            None => {
                assert(w@.skip(1) =~= payload@);
            },
            Some(k) => {},
        }
    }
    Ok(())
}

/// Recovers the payload embedded in the carrier's LSBs: reads one bit per
/// carrier byte, parses the framed stream, and undoes the encryption-flag
/// wrapping with the optional key.
pub fn decode(carrier: &[u8], key: Option<&[u8]>) -> (r: Result<Vec<u8>, StegError>)
    ensures
        spec_extract(carrier@, key_view(key)) matches Ok(p) ==> r matches Ok(v) && v@ == p,
        spec_extract(carrier@, key_view(key)) matches Err(e) ==> r matches Err(e2) && e2 == e,
{
    let bits = extract_lsb(carrier);
    let wrapped = match convert_from_bits(bits.as_slice()) {
        Ok(w) => w,
        Err(e) => {
            return Err(e);
        },
    };
    unwrap_payload(wrapped.as_slice(), key)
}

} // verus!
