//! Trusted wrappers around the external hash and authenticated-encryption
//! crates. The payload transform itself is a black box to this crate: the
//! wrappers name its results, and the verified pipeline reasons only over
//! those names.
use aes_gcm::aead::{Aead, KeyInit, OsRng};
use aes_gcm::{AeadCore, Aes256Gcm, Key, Nonce};
use sha2::{Digest, Sha256};
use vstd::prelude::*;

verus! {

/// The SHA-256 digest of `data`: a function of the input bytes alone.
pub uninterp spec fn sha256_of(data: Seq<u8>) -> Seq<u8>;

/// The AES-256-GCM ciphertext (with its appended authentication tag) for
/// the given key, nonce and plaintext: a function of those three alone.
pub uninterp spec fn aead_ciphertext(key: Seq<u8>, nonce: Seq<u8>, pt: Seq<u8>) -> Seq<u8>;

/// The result of AES-256-GCM decryption for the given key, nonce and
/// ciphertext: the plaintext when the authentication tag verifies, and
/// nothing otherwise. A function of those three alone.
pub uninterp spec fn aead_plaintext(key: Seq<u8>, nonce: Seq<u8>, ct: Seq<u8>) -> Option<Seq<u8>>;

/// Relies on sha2's `Sha256::digest`: the digest is 32 bytes and depends
/// on the input bytes alone.
#[verifier::external_body]
pub(crate) fn sha256_digest(data: &[u8]) -> (r: Vec<u8>)
    ensures
        r@ == sha256_of(data@),
        r@.len() == 32,
{
    Sha256::digest(data).to_vec()
}

/// Relies on aes-gcm's `AeadCore::generate_nonce`: a fresh random 96-bit
/// nonce. The value is random, so nothing is stated beyond its length.
#[verifier::external_body]
pub(crate) fn generate_nonce() -> (r: Vec<u8>)
    ensures
        r@.len() == 12,
{
    Aes256Gcm::generate_nonce(&mut OsRng).to_vec()
}

/// Relies on aes-gcm's `Aead::encrypt` for `Aes256Gcm`: the ciphertext is
/// the plaintext's length plus the 16-byte tag, is a function of key, nonce
/// and plaintext alone, and decrypting it with the same key and nonce gives
/// the plaintext back. Its only failure is a plaintext longer than 2^36
/// bytes, which the precondition rules out.
#[verifier::external_body]
pub(crate) fn aes_gcm_encrypt(key: &[u8], nonce: &[u8], pt: &[u8]) -> (r: Vec<u8>)
    requires
        key@.len() == 32,
        nonce@.len() == 12,
        pt@.len() <= 0xFFFF,
    ensures
        r@ == aead_ciphertext(key@, nonce@, pt@),
        r@.len() == pt@.len() + 16,
        aead_plaintext(key@, nonce@, r@) == Some(pt@),
{
    let cipher = Aes256Gcm::new(Key::<Aes256Gcm>::from_slice(key));
    cipher.encrypt(Nonce::from_slice(nonce), pt).unwrap()
}

/// Relies on aes-gcm's `Aead::decrypt` for `Aes256Gcm`: deterministic in
/// key, nonce and ciphertext; it returns the plaintext exactly when the
/// authentication tag verifies.
#[verifier::external_body]
pub(crate) fn aes_gcm_decrypt(key: &[u8], nonce: &[u8], ct: &[u8]) -> (r: Option<Vec<u8>>)
    requires
        key@.len() == 32,
        nonce@.len() == 12,
    ensures
        r matches Some(p) ==> aead_plaintext(key@, nonce@, ct@) == Some(p@),
        r is None ==> aead_plaintext(key@, nonce@, ct@) is None,
{
    let cipher = Aes256Gcm::new(Key::<Aes256Gcm>::from_slice(key));
    match cipher.decrypt(Nonce::from_slice(nonce), ct) {
        Ok(p) => Some(p),
        Err(_) => None,
    }
}

} // verus!
