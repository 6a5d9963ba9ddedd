//! Little-endian fixed-width integers, the building blocks of the exchange format.
use vstd::prelude::*;

verus! {

/// The four bytes of `v`, least significant first.
pub open spec fn le32(v: u32) -> Seq<u8> {
    seq![v as u8, (v >> 8u32) as u8, (v >> 16u32) as u8, (v >> 24u32) as u8]
}

/// The eight bytes of `v`, least significant first.
pub open spec fn le64(v: u64) -> Seq<u8> {
    seq![
        v as u8,
        (v >> 8u64) as u8,
        (v >> 16u64) as u8,
        (v >> 24u64) as u8,
        (v >> 32u64) as u8,
        (v >> 40u64) as u8,
        (v >> 48u64) as u8,
        (v >> 56u64) as u8,
    ]
}

/// Distinct words have distinct encodings.
pub proof fn lemma_le32_injective(a: u32, b: u32)
    requires
        le32(a) == le32(b),
    ensures
        a == b,
{
    assert(le32(a)[0] == le32(b)[0] && le32(a)[1] == le32(b)[1]);
    assert(le32(a)[2] == le32(b)[2] && le32(a)[3] == le32(b)[3]);
    assert(a == b) by (bit_vector)
        requires
            a as u8 == b as u8,
            (a >> 8u32) as u8 == (b >> 8u32) as u8,
            (a >> 16u32) as u8 == (b >> 16u32) as u8,
            (a >> 24u32) as u8 == (b >> 24u32) as u8,
    ;
}

/// Distinct 64-bit words have distinct encodings.
pub proof fn lemma_le64_injective(a: u64, b: u64)
    requires
        le64(a) == le64(b),
    ensures
        a == b,
{
    assert(le64(a)[0] == le64(b)[0] && le64(a)[1] == le64(b)[1]);
    assert(le64(a)[2] == le64(b)[2] && le64(a)[3] == le64(b)[3]);
    assert(le64(a)[4] == le64(b)[4] && le64(a)[5] == le64(b)[5]);
    assert(le64(a)[6] == le64(b)[6] && le64(a)[7] == le64(b)[7]);
    assert(a == b) by (bit_vector)
        requires
            a as u8 == b as u8,
            (a >> 8u64) as u8 == (b >> 8u64) as u8,
            (a >> 16u64) as u8 == (b >> 16u64) as u8,
            (a >> 24u64) as u8 == (b >> 24u64) as u8,
            (a >> 32u64) as u8 == (b >> 32u64) as u8,
            (a >> 40u64) as u8 == (b >> 40u64) as u8,
            (a >> 48u64) as u8 == (b >> 48u64) as u8,
            (a >> 56u64) as u8 == (b >> 56u64) as u8,
    ;
}

/// Appends the encoding of `v`.
pub fn put_u32(out: &mut Vec<u8>, v: u32)
    ensures
        final(out)@ == old(out)@ + le32(v),
{
    out.push(v as u8);
    out.push((v >> 8u32) as u8);
    out.push((v >> 16u32) as u8);
    out.push((v >> 24u32) as u8);
    assert(final(out)@ =~= old(out)@ + le32(v));
}

/// Appends the encoding of `v`.
pub fn put_u64(out: &mut Vec<u8>, v: u64)
    ensures
        final(out)@ == old(out)@ + le64(v),
{
    out.push(v as u8);
    out.push((v >> 8u64) as u8);
    out.push((v >> 16u64) as u8);
    out.push((v >> 24u64) as u8);
    out.push((v >> 32u64) as u8);
    out.push((v >> 40u64) as u8);
    out.push((v >> 48u64) as u8);
    out.push((v >> 56u64) as u8);
    assert(final(out)@ =~= old(out)@ + le64(v));
}

/// Reads the word encoded at `pos`.
pub fn get_u32(b: &Vec<u8>, pos: usize) -> (r: u32)
    requires
        pos + 4 <= b.len(),
    ensures
        le32(r) == b@.subrange(pos as int, pos + 4),
{
    let b0 = b[pos];
    let b1 = b[pos + 1];
    let b2 = b[pos + 2];
    let b3 = b[pos + 3];
    let r: u32 = (b0 as u32) | ((b1 as u32) << 8u32) | ((b2 as u32) << 16u32) | ((b3 as u32) << 24u32);
    assert(r as u8 == b0 && (r >> 8u32) as u8 == b1 && (r >> 16u32) as u8 == b2 && (r >> 24u32) as u8 == b3)
        by (bit_vector)
        requires
            r == (b0 as u32) | ((b1 as u32) << 8u32) | ((b2 as u32) << 16u32) | ((b3 as u32) << 24u32),
    ;
    assert(le32(r) =~= b@.subrange(pos as int, pos + 4));
    r
}

/// Reads the 64-bit word encoded at `pos`.
pub fn get_u64(b: &Vec<u8>, pos: usize) -> (r: u64)
    requires
        pos + 8 <= b.len(),
    ensures
        le64(r) == b@.subrange(pos as int, pos + 8),
{
    let lo = get_u32(b, pos);
    let hi = get_u32(b, pos + 4);
    let r: u64 = (lo as u64) | ((hi as u64) << 32u64);
    assert(r as u8 == lo as u8 && (r >> 8u64) as u8 == (lo >> 8u32) as u8 && (r >> 16u64) as u8 == (
    lo >> 16u32) as u8 && (r >> 24u64) as u8 == (lo >> 24u32) as u8 && (r >> 32u64) as u8
        == hi as u8 && (r >> 40u64) as u8 == (hi >> 8u32) as u8 && (r >> 48u64) as u8 == (hi
        >> 16u32) as u8 && (r >> 56u64) as u8 == (hi >> 24u32) as u8) by (bit_vector)
        requires
            r == (lo as u64) | ((hi as u64) << 32u64),
    ;
    assert(le32(lo) =~= b@.subrange(pos as int, pos + 4));
    assert(le32(hi) =~= b@.subrange(pos + 4, pos + 8));
    assert(le64(r) =~= b@.subrange(pos as int, pos + 8));
    r
}

} // verus!
