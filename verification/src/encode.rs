use vstd::prelude::*;

verus! {

// Content Addresser, encoding half: every store key is derived from a
// canonical byte encoding of the record's fields — fixed field order,
// little-endian integers, length-prefixed variable-length fields. The byte
// format is SCALE, produced by the codec crate; the spec functions below state
// it exactly, byte for byte.

/// The four little-endian bytes of a 32-bit integer.
pub open spec fn le_bytes_u32(x: u32) -> Seq<u8> {
    seq![x as u8, (x >> 8) as u8, (x >> 16) as u8, (x >> 24) as u8]
}

/// The eight little-endian bytes of a 64-bit integer.
pub open spec fn le_bytes_u64(x: u64) -> Seq<u8> {
    seq![
        x as u8,
        (x >> 8) as u8,
        (x >> 16) as u8,
        (x >> 24) as u8,
        (x >> 32) as u8,
        (x >> 40) as u8,
        (x >> 48) as u8,
        (x >> 56) as u8,
    ]
}

/// The compact (variable-width) encoding of a 32-bit length: the two low bits
/// of the first byte select the width, the value sits in the remaining bits.
pub open spec fn compact_u32(n: u32) -> Seq<u8> {
    if n < 0x40 {
        seq![(n as u8) << 2]
    } else if n < 0x4000 {
        let m = ((n as u16) << 2) | 1;
        seq![m as u8, (m >> 8) as u8]
    } else if n < 0x40000000 {
        le_bytes_u32((n << 2) | 2)
    } else {
        seq![3u8] + le_bytes_u32(n)
    }
}

/// A variable-length byte field: its compact-encoded length, then its bytes.
pub open spec fn enc_bytes(b: Seq<u8>) -> Seq<u8> {
    compact_u32(b.len() as u32) + b
}

/// An optional 32-bit value: one tag byte, then the value when present.
pub open spec fn enc_opt_u32(o: Option<u32>) -> Seq<u8> {
    match o {
        Option::None => seq![0u8],
        Option::Some(x) => seq![1u8] + le_bytes_u32(x),
    }
}

/// Two values with the same little-endian bytes are the same value, so
/// encoded accounts can serve as index keys without collisions.
pub proof fn lemma_le_bytes_u64_injective(a: u64, b: u64)
    requires
        le_bytes_u64(a) == le_bytes_u64(b),
    ensures
        a == b,
{
    assert(le_bytes_u64(a)[0] == le_bytes_u64(b)[0]);
    assert(le_bytes_u64(a)[1] == le_bytes_u64(b)[1]);
    assert(le_bytes_u64(a)[2] == le_bytes_u64(b)[2]);
    assert(le_bytes_u64(a)[3] == le_bytes_u64(b)[3]);
    assert(le_bytes_u64(a)[4] == le_bytes_u64(b)[4]);
    assert(le_bytes_u64(a)[5] == le_bytes_u64(b)[5]);
    assert(le_bytes_u64(a)[6] == le_bytes_u64(b)[6]);
    assert(le_bytes_u64(a)[7] == le_bytes_u64(b)[7]);
    assert((a as u8 == b as u8 && (a >> 8) as u8 == (b >> 8) as u8 && (a >> 16) as u8 == (b
        >> 16) as u8 && (a >> 24) as u8 == (b >> 24) as u8 && (a >> 32) as u8 == (b >> 32) as u8
        && (a >> 40) as u8 == (b >> 40) as u8 && (a >> 48) as u8 == (b >> 48) as u8 && (a
        >> 56) as u8 == (b >> 56) as u8) ==> a == b) by (bit_vector);
}

/// Relies on parity_scale_codec::Encode for u32: the value's four
/// little-endian bytes.
#[verifier::external_body]
pub(crate) fn encode_u32(x: u32) -> (r: Vec<u8>)
    ensures
        r@ == le_bytes_u32(x),
{
    parity_scale_codec::Encode::encode(&x)
}

/// Relies on parity_scale_codec::Encode for u64: the value's eight
/// little-endian bytes.
#[verifier::external_body]
pub(crate) fn encode_u64(x: u64) -> (r: Vec<u8>)
    ensures
        r@ == le_bytes_u64(x),
{
    parity_scale_codec::Encode::encode(&x)
}

/// Relies on parity_scale_codec::Encode for Vec<u8>: the compact-encoded
/// length followed by the bytes; it panics past u32::MAX elements, which the
/// precondition rules out.
#[verifier::external_body]
pub(crate) fn encode_bytes(b: &Vec<u8>) -> (r: Vec<u8>)
    requires
        b@.len() <= u32::MAX,
    ensures
        r@ == enc_bytes(b@),
{
    parity_scale_codec::Encode::encode(b)
}

/// Relies on parity_scale_codec::Encode for Option<u32>: a zero byte for
/// None, a one byte followed by the value's little-endian bytes for Some.
#[verifier::external_body]
pub(crate) fn encode_opt_u32(o: &Option<u32>) -> (r: Vec<u8>)
    ensures
        r@ == enc_opt_u32(*o),
{
    parity_scale_codec::Encode::encode(o)
}

} // verus!
