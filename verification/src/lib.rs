//! Hides a byte payload in the least-significant bits of a carrier byte
//! buffer (the raw pixel bytes of an image), and recovers it exactly.
//!
//! The crate has three layers:
//! - `bits`: the framer, which turns a payload into a self-delimiting bit
//!   stream (marker, 16-bit length, payload bits) and parses it back;
//! - `channel`: the bit channel, which moves such a bit stream into and out
//!   of the LSBs of a carrier buffer, one bit per carrier byte;
//! - `pipeline`: the user-facing encode / decode / capacity operations,
//!   including the optional authenticated encryption of the payload.
use vstd::prelude::*;

pub mod bits;
pub mod channel;
pub mod cmd;
mod crypto;
pub mod pipeline;

pub use bits::{bits_to_u16, bits_to_u8, convert_from_bits, convert_to_bits, u16_to_bits, u8_to_bits};
pub use channel::{extract_lsb, modify_lsb};
pub use pipeline::{decode, encode, storage_capacity, unwrap_payload, wrap_payload};

verus! {

/// How a single encode or decode call can fail.
#[derive(Clone, Copy, Debug, PartialEq, Eq, Structural)]
pub enum StegError {
    /// The first 32 embedded bits are not the marker: the carrier was never
    /// encoded by this format.
    NotSteganographic,
    /// The bit stream is shorter than the fixed framing (marker and length
    /// field), or the embedded payload is empty where a flag byte is owed.
    MalformedStream,
    /// The declared payload length exceeds the bits the carrier supplies.
    TruncatedPayload,
    /// The framed payload does not fit the carrier's LSB capacity.
    CapacityExceeded,
    /// Authenticated decryption failed: wrong key or tampered ciphertext.
    DecryptionFailed,
    /// The embedded flag byte says the payload is encrypted, but no key was
    /// supplied.
    MissingKey,
}

/// True when every element of `s` is a single bit value, 0 or 1.
pub open spec fn is_bits(s: Seq<u8>) -> bool {
    forall|i: int| 0 <= i < s.len() ==> s[i] == 0 || s[i] == 1
}

} // verus!
