//! The framer: converts a payload byte sequence into a self-delimiting bit
//! sequence (marker, 16-bit length prefix, payload bits, each byte emitted
//! most-significant-bit first), and validates and parses such a bit sequence
//! back into the payload bytes.
use vstd::prelude::*;

use crate::is_bits;
use crate::StegError;

verus! {

/// Bit `i` (0 = most significant) of the byte `b`, as 0 or 1.
pub open spec fn byte_bit(b: u8, i: int) -> u8
    recommends
        0 <= i < 8,
{
    (b >> ((7 - i) as u8)) & 1
}

/// The eight bits of `b`, most significant first.
pub open spec fn byte_bits(b: u8) -> Seq<u8> {
    Seq::new(8, |i: int| byte_bit(b, i))
}

/// The byte whose bits, most significant first, are the first eight
/// elements of `s`.
pub open spec fn byte_of_bits(s: Seq<u8>) -> u8
    recommends
        s.len() >= 8,
{
    (s[0] << 7u8) | (s[1] << 6u8) | (s[2] << 5u8) | (s[3] << 4u8) | (s[4] << 3u8) | (s[5] << 2u8)
        | (s[6] << 1u8) | s[7]
}

/// Bit `i` (0 = most significant) of the 16-bit value `w`, as 0 or 1.
pub open spec fn word_bit(w: u16, i: int) -> u8
    recommends
        0 <= i < 16,
{
    ((w >> ((15 - i) as u16)) & 1) as u8
}

/// The sixteen bits of `w`, most significant first.
pub open spec fn word_bits(w: u16) -> Seq<u8> {
    Seq::new(16, |i: int| word_bit(w, i))
}

/// The 16-bit value whose bits, most significant first, are the first
/// sixteen elements of `s`.
pub open spec fn word_of_bits(s: Seq<u8>) -> u16
    recommends
        s.len() >= 16,
{
    ((s[0] as u16) << 15u16) | ((s[1] as u16) << 14u16) | ((s[2] as u16) << 13u16)
        | ((s[3] as u16) << 12u16) | ((s[4] as u16) << 11u16) | ((s[5] as u16) << 10u16)
        | ((s[6] as u16) << 9u16) | ((s[7] as u16) << 8u16) | ((s[8] as u16) << 7u16)
        | ((s[9] as u16) << 6u16) | ((s[10] as u16) << 5u16) | ((s[11] as u16) << 4u16)
        | ((s[12] as u16) << 3u16) | ((s[13] as u16) << 2u16) | ((s[14] as u16) << 1u16)
        | (s[15] as u16)
}

/// The 32 marker bits: the bits of the four bytes of the ASCII text "steg",
/// identifying a bit stream as carrying an embedded payload.
pub open spec fn marker_bits() -> Seq<u8> {
    byte_bits(0x73) + byte_bits(0x74) + byte_bits(0x65) + byte_bits(0x67)
}

/// The bits of all bytes of `p`, in order, each byte most significant
/// bit first.
pub open spec fn bytes_bits(p: Seq<u8>) -> Seq<u8> {
    Seq::new(p.len() * 8, |i: int| byte_bit(p[i / 8], i % 8))
}

/// The full framed bit stream for the payload `p`: marker bits, then the
/// sixteen bits of the payload length, then the payload bits.
pub open spec fn spec_stream(p: Seq<u8>) -> Seq<u8>
    recommends
        p.len() <= 0xFFFF,
{
    marker_bits() + word_bits(p.len() as u16) + bytes_bits(p)
}

/// The result of parsing the bit sequence `bits` as a framed stream:
/// the payload bytes, or the first failure the framing rules give.
pub open spec fn spec_decode(bits: Seq<u8>) -> Result<Seq<u8>, StegError> {
    if bits.len() < 48 {
        Err(StegError::MalformedStream)
    } else if bits.subrange(0, 32) != marker_bits() {
        Err(StegError::NotSteganographic)
    } else {
        let n = word_of_bits(bits.subrange(32, 48)) as int;
        if bits.len() < 48 + 8 * n {
            Err(StegError::TruncatedPayload)
        } else {
            Ok(Seq::new(n as nat, |j: int| byte_of_bits(bits.subrange(48 + 8 * j, 56 + 8 * j))))
        }
    }
}

/// Recombining the eight bits of a byte gives the byte back.
pub proof fn lemma_byte_roundtrip(b: u8)
    ensures
        byte_of_bits(byte_bits(b)) == b,
        is_bits(byte_bits(b)),
{
    let s = byte_bits(b);
    assert(s[0] == (b >> 7u8) & 1);
    assert(s[1] == (b >> 6u8) & 1);
    assert(s[2] == (b >> 5u8) & 1);
    assert(s[3] == (b >> 4u8) & 1);
    assert(s[4] == (b >> 3u8) & 1);
    assert(s[5] == (b >> 2u8) & 1);
    assert(s[6] == (b >> 1u8) & 1);
    assert(s[7] == (b >> 0u8) & 1);
    assert((((b >> 7u8) & 1) << 7u8) | (((b >> 6u8) & 1) << 6u8) | (((b >> 5u8) & 1) << 5u8)
        | (((b >> 4u8) & 1) << 4u8) | (((b >> 3u8) & 1) << 3u8) | (((b >> 2u8) & 1) << 2u8)
        | (((b >> 1u8) & 1) << 1u8) | ((b >> 0u8) & 1) == b) by (bit_vector);
    assert forall|i: int| 0 <= i < 8 implies s[i] == 0 || s[i] == 1 by {
        let sh = (7 - i) as u8;
        assert((b >> sh) & 1 == 0 || (b >> sh) & 1 == 1) by (bit_vector);
    }
}

/// Recombining the sixteen bits of a 16-bit value gives the value back.
pub proof fn lemma_word_roundtrip(w: u16)
    ensures
        word_of_bits(word_bits(w)) == w,
        is_bits(word_bits(w)),
{
    let s = word_bits(w);
    assert forall|i: int| 0 <= i < 16 implies s[i] == ((w >> ((15 - i) as u16)) & 1) as u8 by {}
    assert(((((w >> 15u16) & 1) as u8 as u16) << 15u16) | ((((w >> 14u16) & 1) as u8 as u16)
        << 14u16) | ((((w >> 13u16) & 1) as u8 as u16) << 13u16) | ((((w >> 12u16) & 1) as u8
        as u16) << 12u16) | ((((w >> 11u16) & 1) as u8 as u16) << 11u16) | ((((w >> 10u16) & 1)
        as u8 as u16) << 10u16) | ((((w >> 9u16) & 1) as u8 as u16) << 9u16) | ((((w >> 8u16) & 1)
        as u8 as u16) << 8u16) | ((((w >> 7u16) & 1) as u8 as u16) << 7u16) | ((((w >> 6u16) & 1)
        as u8 as u16) << 6u16) | ((((w >> 5u16) & 1) as u8 as u16) << 5u16) | ((((w >> 4u16) & 1)
        as u8 as u16) << 4u16) | ((((w >> 3u16) & 1) as u8 as u16) << 3u16) | ((((w >> 2u16) & 1)
        as u8 as u16) << 2u16) | ((((w >> 1u16) & 1) as u8 as u16) << 1u16) | (((w >> 0u16) & 1)
        as u8 as u16) == w) by (bit_vector);
    assert forall|i: int| 0 <= i < 16 implies s[i] == 0 || s[i] == 1 by {
        let sh = (15 - i) as u16;
        assert((w >> sh) & 1 == 0 || (w >> sh) & 1 == 1) by (bit_vector);
    }
}

/// Emits the eight bits of `inp`, most significant first.
pub fn u8_to_bits(inp: u8) -> (out: Vec<u8>)
    ensures
        out@ == byte_bits(inp),
{
    let mut out: Vec<u8> = Vec::new();
    let mut i: usize = 0;
    while i < 8
        invariant
            i <= 8,
            out@.len() == i,
            forall|j: int| 0 <= j < i ==> out@[j] == byte_bit(inp, j),
        decreases 8 - i,
    {
        out.push((inp >> ((7 - i) as u8)) & 1);
        i += 1;
    }
    proof {
        assert(out@ =~= byte_bits(inp));
    }
    out
}

/// Reassembles a byte from the first eight elements of `bits`, taking each
/// element's value as one bit, most significant first.
pub fn bits_to_u8(bits: &[u8]) -> (out: u8)
    requires
        bits@.len() >= 8,
    ensures
        out == byte_of_bits(bits@),
{
    (bits[0] << 7u8) | (bits[1] << 6u8) | (bits[2] << 5u8) | (bits[3] << 4u8) | (bits[4] << 3u8)
        | (bits[5] << 2u8) | (bits[6] << 1u8) | bits[7]
}

/// Emits the sixteen bits of `inp`, most significant first.
pub fn u16_to_bits(inp: u16) -> (out: Vec<u8>)
    ensures
        out@ == word_bits(inp),
{
    let mut out: Vec<u8> = Vec::new();
    let mut i: usize = 0;
    while i < 16
        invariant
            i <= 16,
            out@.len() == i,
            forall|j: int| 0 <= j < i ==> out@[j] == word_bit(inp, j),
        decreases 16 - i,
    {
        out.push(((inp >> ((15 - i) as u16)) & 1) as u8);
        i += 1;
    }
    proof {
        assert(out@ =~= word_bits(inp));
    }
    out
}

/// Reassembles a 16-bit value from the first sixteen elements of `bits`,
/// taking each element's value as one bit, most significant first.
pub fn bits_to_u16(bits: &[u8]) -> (out: u16)
    requires
        bits@.len() >= 16,
    ensures
        out == word_of_bits(bits@),
{
    ((bits[0] as u16) << 15u16) | ((bits[1] as u16) << 14u16) | ((bits[2] as u16) << 13u16)
        | ((bits[3] as u16) << 12u16) | ((bits[4] as u16) << 11u16) | ((bits[5] as u16) << 10u16)
        | ((bits[6] as u16) << 9u16) | ((bits[7] as u16) << 8u16) | ((bits[8] as u16) << 7u16)
        | ((bits[9] as u16) << 6u16) | ((bits[10] as u16) << 5u16) | ((bits[11] as u16) << 4u16)
        | ((bits[12] as u16) << 3u16) | ((bits[13] as u16) << 2u16) | ((bits[14] as u16) << 1u16)
        | (bits[15] as u16)
}

/// Extending a payload prefix by one byte appends that byte's bits to the
/// prefix's bit stream.
pub proof fn lemma_bytes_bits_extend(p: Seq<u8>, i: int)
    requires
        0 <= i < p.len(),
    ensures
        bytes_bits(p.take(i + 1)) == bytes_bits(p.take(i)) + byte_bits(p[i]),
{
    let a = bytes_bits(p.take(i));
    let b = byte_bits(p[i]);
    let c = bytes_bits(p.take(i + 1));
    assert forall|k: int| 0 <= k < c.len() implies c[k] == (a + b)[k] by {
        if k < 8 * i {
            assert(k / 8 < i);
            assert(c[k] == byte_bit(p.take(i + 1)[k / 8], k % 8));
            assert(a[k] == byte_bit(p.take(i)[k / 8], k % 8));
        } else {
            assert(k / 8 == i);
            assert(k % 8 == k - 8 * i);
            assert(c[k] == byte_bit(p[i], k - 8 * i));
            assert(b[k - 8 * i] == byte_bit(p[i], k - 8 * i));
        }
    }
    assert(c =~= a + b);
}

/// The 32 marker bits as a vector, one element per bit.
pub fn marker_pattern() -> (out: Vec<u8>)
    ensures
        out@ == marker_bits(),
{
    let mut out = u8_to_bits(0x73);
    let mut t = u8_to_bits(0x74);
    out.append(&mut t);
    let mut e = u8_to_bits(0x65);
    out.append(&mut e);
    let mut g = u8_to_bits(0x67);
    out.append(&mut g);
    out
}

/// Frames the payload `bytes` as a bit sequence: the marker bits, the
/// sixteen bits of the payload length (most significant first), then each
/// payload byte's bits, most significant first.
pub fn convert_to_bits(bytes: &[u8]) -> (out: Vec<u8>)
    requires
        bytes@.len() <= 0xFFFF,
    ensures
        out@ == spec_stream(bytes@),
        out@.len() == 48 + 8 * bytes@.len(),
{
    let mut out = marker_pattern();
    let mut len_bits = u16_to_bits(bytes.len() as u16);
    out.append(&mut len_bits);
    proof {
        assert(bytes_bits(bytes@.take(0)) =~= Seq::<u8>::empty());
        assert(out@ =~= marker_bits() + word_bits(bytes@.len() as u16) + bytes_bits(
            bytes@.take(0),
        ));
    }
    let mut i: usize = 0;
    while i < bytes.len()
        invariant
            i <= bytes@.len(),
            bytes@.len() <= 0xFFFF,
            out@ == marker_bits() + word_bits(bytes@.len() as u16) + bytes_bits(
                bytes@.take(i as int),
            ),
        decreases bytes@.len() - i,
    {
        let mut b = u8_to_bits(bytes[i]);
        out.append(&mut b);
        proof {
            lemma_bytes_bits_extend(bytes@, i as int);
            assert(out@ =~= marker_bits() + word_bits(bytes@.len() as u16) + bytes_bits(
                bytes@.take(i + 1),
            ));
        }
        i += 1;
    }
    proof {
        assert(bytes@.take(bytes@.len() as int) =~= bytes@);
    }
    out
}

/// Parses the bit sequence `bits` as a framed stream: checks the marker,
/// reads the 16-bit length, and regroups the payload bits into bytes.
/// Excess bits beyond the declared payload belong to unused carrier
/// capacity and are ignored.
pub fn convert_from_bits(bits: &[u8]) -> (r: Result<Vec<u8>, StegError>)
    ensures
        spec_decode(bits@) matches Ok(p) ==> r matches Ok(v) && v@ == p,
        spec_decode(bits@) matches Err(e) ==> r matches Err(e2) && e2 == e,
{
    if bits.len() < 48 {
        return Err(StegError::MalformedStream);
    }
    let marker = marker_pattern();
    let mut i: usize = 0;
    while i < 32
        invariant
            i <= 32,
            bits@.len() >= 48,
            marker@ == marker_bits(),
            forall|j: int| 0 <= j < i ==> bits@[j] == marker_bits()[j],
        decreases 32 - i,
    {
        if bits[i] != marker[i] {
            proof {
                assert(bits@.subrange(0, 32)[i as int] != marker_bits()[i as int]);
            }
            return Err(StegError::NotSteganographic);
        }
        i += 1;
    }
    proof {
        assert(bits@.subrange(0, 32) =~= marker_bits());
    }
    let len_field = vstd::slice::slice_subrange(bits, 32, 48);
    let n = bits_to_u16(len_field) as usize;
    proof {
        assert(n == word_of_bits(bits@.subrange(32, 48)));
    }
    if bits.len() < 48 + 8 * n {
        return Err(StegError::TruncatedPayload);
    }
    let mut out: Vec<u8> = Vec::new();
    let mut j: usize = 0;
    while j < n
        invariant
            j <= n,
            n <= 0xFFFF,
            bits@.len() >= 48 + 8 * n,
            out@.len() == j,
            forall|k: int|
                0 <= k < j ==> out@[k] == byte_of_bits(bits@.subrange(48 + 8 * k, 56 + 8 * k)),
        decreases n - j,
    {
        let chunk = vstd::slice::slice_subrange(bits, 48 + 8 * j, 56 + 8 * j);
        out.push(bits_to_u8(chunk));
        j += 1;
    }
    proof {
        let decoded = spec_decode(bits@);
        assert(out@ =~= decoded->Ok_0);
    }
    Ok(out)
}

} // verus!
