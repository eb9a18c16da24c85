//! Encoding and decoding of fixed-width unsigned integers as byte
//! sequences under an explicit byte ordering, together with the laws
//! that relate encoding, decoding and the two orderings.

use vstd::prelude::*;

verus! {

/// Byte ordering for multi-byte values stored in a buffer: little-endian
/// places the least-significant byte first, big-endian places the
/// most-significant byte first.
#[derive(Clone, Copy)]
pub enum Ordering {
    LittleEndian,
    BigEndian,
}

/// The four bytes of `v`, least-significant first.
pub open spec fn le_bytes_of_u32(v: u32) -> Seq<u8> {
    seq![v as u8, (v >> 8) as u8, (v >> 16) as u8, (v >> 24) as u8]
}

/// The value whose four bytes, least-significant first, are `s`.
pub open spec fn u32_of_le_bytes(s: Seq<u8>) -> u32
    recommends
        s.len() == 4,
{
    (s[0] as u32) | ((s[1] as u32) << 8) | ((s[2] as u32) << 16) | ((s[3] as u32) << 24)
}

/// The in-memory layout of `v` under `order`: under little-endian, byte
/// `i` (counted from the least-significant end) stands at position `i`;
/// under big-endian it stands at position `3 - i`.
pub open spec fn encode_u32(order: Ordering, v: u32) -> Seq<u8> {
    match order {
        Ordering::LittleEndian => le_bytes_of_u32(v),
        Ordering::BigEndian => le_bytes_of_u32(v).reverse(),
    }
}

/// The value stored by the four bytes `s` under `order`; the inverse of
/// [`encode_u32`].
pub open spec fn decode_u32(order: Ordering, s: Seq<u8>) -> u32
    recommends
        s.len() == 4,
{
    match order {
        Ordering::LittleEndian => u32_of_le_bytes(s),
        Ordering::BigEndian => u32_of_le_bytes(s.reverse()),
    }
}

/// The eight bytes of `v`, least-significant first.
pub open spec fn le_bytes_of_u64(v: u64) -> Seq<u8> {
    seq![
        v as u8,
        (v >> 8) as u8,
        (v >> 16) as u8,
        (v >> 24) as u8,
        (v >> 32) as u8,
        (v >> 40) as u8,
        (v >> 48) as u8,
        (v >> 56) as u8,
    ]
}

/// The value whose eight bytes, least-significant first, are `s`.
pub open spec fn u64_of_le_bytes(s: Seq<u8>) -> u64
    recommends
        s.len() == 8,
{
    (s[0] as u64) | ((s[1] as u64) << 8) | ((s[2] as u64) << 16) | ((s[3] as u64) << 24) | ((
    s[4] as u64) << 32) | ((s[5] as u64) << 40) | ((s[6] as u64) << 48) | ((s[7] as u64) << 56)
}

/// The in-memory layout of `v` under `order`: under little-endian, byte
/// `i` (counted from the least-significant end) stands at position `i`;
/// under big-endian it stands at position `7 - i`.
pub open spec fn encode_u64(order: Ordering, v: u64) -> Seq<u8> {
    match order {
        Ordering::LittleEndian => le_bytes_of_u64(v),
        Ordering::BigEndian => le_bytes_of_u64(v).reverse(),
    }
}

/// The value stored by the eight bytes `s` under `order`; the inverse of
/// [`encode_u64`].
pub open spec fn decode_u64(order: Ordering, s: Seq<u8>) -> u64
    recommends
        s.len() == 8,
{
    match order {
        Ordering::LittleEndian => u64_of_le_bytes(s),
        Ordering::BigEndian => u64_of_le_bytes(s.reverse()),
    }
}

/// The byte at `offset` of `data`, or `None` if `offset` is out of bounds.
pub open spec fn spec_read_u8(data: Seq<u8>, offset: int) -> Option<u8> {
    if 0 <= offset < data.len() {
        Some(data[offset])
    } else {
        None
    }
}

/// The 32-bit value stored at `offset` of `data` under `order`, or `None`
/// if the four bytes do not fully fit within `data`.
pub open spec fn spec_read_u32(order: Ordering, data: Seq<u8>, offset: int) -> Option<u32> {
    if 0 <= offset && offset + 4 <= data.len() {
        Some(decode_u32(order, data.subrange(offset, offset + 4)))
    } else {
        None
    }
}

/// The 64-bit value stored at `offset` of `data` under `order`, or `None`
/// if the eight bytes do not fully fit within `data`.
pub open spec fn spec_read_u64(order: Ordering, data: Seq<u8>, offset: int) -> Option<u64> {
    if 0 <= offset && offset + 8 <= data.len() {
        Some(decode_u64(order, data.subrange(offset, offset + 8)))
    } else {
        None
    }
}

/// `data` with the `patch.len()` bytes starting at `offset` replaced by
/// `patch`; everything outside that range is unchanged.
pub open spec fn splice(data: Seq<u8>, offset: int, patch: Seq<u8>) -> Seq<u8>
    recommends
        0 <= offset,
        offset + patch.len() <= data.len(),
{
    data.subrange(0, offset) + patch + data.subrange(offset + patch.len(), data.len() as int)
}

/// Law: under either ordering, decoding an encoded value yields the
/// value back exactly.
pub proof fn lemma_u32_round_trip(order: Ordering, v: u32)
    ensures
        encode_u32(order, v).len() == 4,
        decode_u32(order, encode_u32(order, v)) == v,
{
    let le = le_bytes_of_u32(v);
    assert(le.reverse().reverse() =~= le);
    assert(v == (((v as u8) as u32) | ((((v >> 8) as u8) as u32) << 8) | ((((v >> 16) as u8)
        as u32) << 16) | ((((v >> 24) as u8) as u32) << 24))) by (bit_vector);
}

/// Law: under either ordering, decoding an encoded value yields the
/// value back exactly.
pub proof fn lemma_u64_round_trip(order: Ordering, v: u64)
    ensures
        encode_u64(order, v).len() == 8,
        decode_u64(order, encode_u64(order, v)) == v,
{
    let le = le_bytes_of_u64(v);
    assert(le.reverse().reverse() =~= le);
    assert(v == (((v as u8) as u64) | ((((v >> 8) as u8) as u64) << 8) | ((((v >> 16) as u8)
        as u64) << 16) | ((((v >> 24) as u8) as u64) << 24) | ((((v >> 32) as u8) as u64) << 32)
        | ((((v >> 40) as u8) as u64) << 40) | ((((v >> 48) as u8) as u64) << 48) | ((((v >> 56)
        as u8) as u64) << 56))) by (bit_vector);
}

/// Law: the big-endian layout of a 32-bit value is the exact byte
/// reverse of its little-endian layout.
pub proof fn lemma_u32_ordering_symmetry(v: u32)
    ensures
        encode_u32(Ordering::BigEndian, v) == encode_u32(Ordering::LittleEndian, v).reverse(),
{
}

/// Law: the big-endian layout of a 64-bit value is the exact byte
/// reverse of its little-endian layout.
pub proof fn lemma_u64_ordering_symmetry(v: u64)
    ensures
        encode_u64(Ordering::BigEndian, v) == encode_u64(Ordering::LittleEndian, v).reverse(),
{
}

/// Law: a byte appended at the tail of a buffer is read back exactly.
pub proof fn lemma_append_then_read_u8(data: Seq<u8>, value: u8)
    ensures
        spec_read_u8(data.push(value), data.len() as int) == Some(value),
{
}

/// Law: a 32-bit value appended at the tail of a buffer is read back
/// exactly, under the ordering it was appended with.
pub proof fn lemma_append_then_read_u32(order: Ordering, data: Seq<u8>, value: u32)
    ensures
        spec_read_u32(order, data + encode_u32(order, value), data.len() as int) == Some(value),
{
    lemma_u32_round_trip(order, value);
    assert((data + encode_u32(order, value)).subrange(data.len() as int, data.len() as int + 4)
        =~= encode_u32(order, value));
}

/// Law: a 64-bit value appended at the tail of a buffer is read back
/// exactly, under the ordering it was appended with.
pub proof fn lemma_append_then_read_u64(order: Ordering, data: Seq<u8>, value: u64)
    ensures
        spec_read_u64(order, data + encode_u64(order, value), data.len() as int) == Some(value),
{
    lemma_u64_round_trip(order, value);
    assert((data + encode_u64(order, value)).subrange(data.len() as int, data.len() as int + 8)
        =~= encode_u64(order, value));
}

/// Law: a byte altered in place is read back exactly.
pub proof fn lemma_alter_then_read_u8(data: Seq<u8>, offset: int, value: u8)
    requires
        0 <= offset < data.len(),
    ensures
        spec_read_u8(data.update(offset, value), offset) == Some(value),
{
}

/// Law: a 32-bit value altered in place is read back exactly, under the
/// ordering it was written with.
pub proof fn lemma_alter_then_read_u32(order: Ordering, data: Seq<u8>, offset: int, value: u32)
    requires
        0 <= offset,
        offset + 4 <= data.len(),
    ensures
        spec_read_u32(order, splice(data, offset, encode_u32(order, value)), offset) == Some(
            value,
        ),
{
    lemma_u32_round_trip(order, value);
    let patched = splice(data, offset, encode_u32(order, value));
    assert(patched.len() == data.len());
    assert(patched.subrange(offset, offset + 4) =~= encode_u32(order, value));
}

/// Law: a 64-bit value altered in place is read back exactly, under the
/// ordering it was written with.
pub proof fn lemma_alter_then_read_u64(order: Ordering, data: Seq<u8>, offset: int, value: u64)
    requires
        0 <= offset,
        offset + 8 <= data.len(),
    ensures
        spec_read_u64(order, splice(data, offset, encode_u64(order, value)), offset) == Some(
            value,
        ),
{
    lemma_u64_round_trip(order, value);
    let patched = splice(data, offset, encode_u64(order, value));
    assert(patched.len() == data.len());
    assert(patched.subrange(offset, offset + 8) =~= encode_u64(order, value));
}

} // verus!
