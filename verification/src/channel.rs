//! The bit channel: transfers a bit sequence into and out of the least
//! significant bits of a carrier byte buffer, one bit per carrier byte,
//! leaving the upper seven bits of every carrier byte unchanged.
use vstd::prelude::*;

verus! {

/// The least significant bit of every byte of `s`, in order.
pub open spec fn lsb_seq(s: Seq<u8>) -> Seq<u8> {
    Seq::new(s.len(), |i: int| s[i] & 1)
}

/// The byte `b` with its least significant bit set to 1 if `bit` is 1 and
/// cleared otherwise; the other seven bits are those of `b`.
pub open spec fn set_lsb(b: u8, bit: u8) -> u8 {
    if bit == 1 {
        b | 1
    } else {
        b & 0xFE
    }
}

/// The carrier `c` after the bits of `bits` have been written into the
/// least significant bits of its first `bits.len()` bytes; the remaining
/// bytes are those of `c`.
pub open spec fn spec_write(c: Seq<u8>, bits: Seq<u8>) -> Seq<u8>
    recommends
        bits.len() <= c.len(),
{
    Seq::new(
        c.len(),
        |i: int|
            if i < bits.len() {
                set_lsb(c[i], bits[i])
            } else {
                c[i]
            },
    )
}

/// Setting a byte's least significant bit keeps its upper seven bits, and
/// the bit read back is the bit written.
pub proof fn lemma_set_lsb(b: u8, bit: u8)
    ensures
        set_lsb(b, bit) >> 1u8 == b >> 1u8,
        set_lsb(b, bit) & 1 == (if bit == 1 {
            1u8
        } else {
            0u8
        }),
{
    assert((b | 1) >> 1u8 == b >> 1u8 && (b & 0xFE) >> 1u8 == b >> 1u8 && (b | 1) & 1 == 1 && (b
        & 0xFE) & 1 == 0) by (bit_vector);
}

/// Reads the channel: one bit per carrier byte, equal to that byte's least
/// significant bit, in carrier order.
pub fn extract_lsb(bytes: &[u8]) -> (out: Vec<u8>)
    ensures
        out@ == lsb_seq(bytes@),
{
    let mut out: Vec<u8> = Vec::new();
    let mut i: usize = 0;
    while i < bytes.len()
        invariant
            i <= bytes@.len(),
            out@.len() == i,
            forall|j: int| 0 <= j < i ==> out@[j] == bytes@[j] & 1,
        decreases bytes@.len() - i,
    {
        out.push(bytes[i] & 1);
        i += 1;
    }
    proof {
        assert(out@ =~= lsb_seq(bytes@));
    }
    out
}

/// Writes the channel: sets the least significant bit of `bytes[i]` to
/// `bits[i]` for every index of `bits`, leaving each byte's upper seven
/// bits and every byte beyond `bits.len()` untouched.
pub fn modify_lsb(bytes: &mut Vec<u8>, bits: &[u8])
    requires
        bits@.len() <= old(bytes)@.len(),
    ensures
        final(bytes)@ == spec_write(old(bytes)@, bits@),
        final(bytes)@.len() == old(bytes)@.len(),
        forall|i: int|
            0 <= i < old(bytes)@.len() ==> final(bytes)@[i] >> 1u8 == old(bytes)@[i] >> 1u8,
{
    let mut i: usize = 0;
    while i < bits.len()
        invariant
            i <= bits@.len(),
            bits@.len() <= bytes@.len(),
            bytes@.len() == old(bytes)@.len(),
            forall|j: int| 0 <= j < i ==> bytes@[j] == set_lsb(old(bytes)@[j], bits@[j]),
            forall|j: int| i <= j < bytes@.len() ==> bytes@[j] == old(bytes)@[j],
        decreases bits@.len() - i,
    {
        let b = bytes[i];
        if bits[i] == 1 {
            bytes[i] = b | 1;
        } else {
            bytes[i] = b & 0xFE;
        }
        i += 1;
    }
    proof {
        assert(bytes@ =~= spec_write(old(bytes)@, bits@));
        assert forall|k: int| 0 <= k < old(bytes)@.len() implies bytes@[k] >> 1u8 == old(
            bytes,
        )@[k] >> 1u8 by {
            if k < bits@.len() {
                lemma_set_lsb(old(bytes)@[k], bits@[k]);
            }
        }
    }
}

} // verus!
