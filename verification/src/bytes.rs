//! Big-endian integer encoding, backed by the `byteorder` crate.

use byteorder::ByteOrder;
use vstd::prelude::*;

verus! {

/// The big-endian `u16` stored at `pos` in `b`.
pub open spec fn be_u16(b: Seq<u8>, pos: int) -> u16 {
    (b[pos] as int * 0x100 + b[pos + 1] as int) as u16
}

/// The big-endian `u32` stored at `pos` in `b`.
pub open spec fn be_u32(b: Seq<u8>, pos: int) -> u32 {
    (b[pos] as int * 0x100_0000 + b[pos + 1] as int * 0x1_0000 + b[pos + 2] as int * 0x100
        + b[pos + 3] as int) as u32
}

/// The big-endian `u64` stored at `pos` in `b`.
pub open spec fn be_u64(b: Seq<u8>, pos: int) -> u64 {
    (be_u32(b, pos) as int * 0x1_0000_0000 + be_u32(b, pos + 4) as int) as u64
}

/// The two big-endian bytes of `n`.
pub open spec fn be_bytes_u16(n: u16) -> Seq<u8> {
    seq![(n / 0x100) as u8, (n % 0x100) as u8]
}

/// The four big-endian bytes of `n`.
pub open spec fn be_bytes_u32(n: u32) -> Seq<u8> {
    seq![
        (n / 0x100_0000) as u8,
        (n / 0x1_0000 % 0x100) as u8,
        (n / 0x100 % 0x100) as u8,
        (n % 0x100) as u8,
    ]
}

/// The eight big-endian bytes of `n`.
pub open spec fn be_bytes_u64(n: u64) -> Seq<u8> {
    be_bytes_u32((n / 0x1_0000_0000) as u32) + be_bytes_u32((n % 0x1_0000_0000) as u32)
}

/// Decoding the encoding of a `u16` gives it back.
pub proof fn lemma_be_u16_roundtrip(n: u16, s: Seq<u8>, pos: int)
    requires
        0 <= pos,
        pos + 2 <= s.len(),
        s.subrange(pos, pos + 2) == be_bytes_u16(n),
    ensures
        be_u16(s, pos) == n,
{
    assert(s[pos] == s.subrange(pos, pos + 2)[0]);
    assert(s[pos + 1] == s.subrange(pos, pos + 2)[1]);
}

/// Decoding the encoding of a `u32` gives it back.
pub proof fn lemma_be_u32_roundtrip(n: u32, s: Seq<u8>, pos: int)
    requires
        0 <= pos,
        pos + 4 <= s.len(),
        s.subrange(pos, pos + 4) == be_bytes_u32(n),
    ensures
        be_u32(s, pos) == n,
{
    let w = s.subrange(pos, pos + 4);
    assert(s[pos] == w[0] && s[pos + 1] == w[1] && s[pos + 2] == w[2] && s[pos + 3] == w[3]);
}

/// Decoding the encoding of a `u64` gives it back.
pub proof fn lemma_be_u64_roundtrip(n: u64, s: Seq<u8>, pos: int)
    requires
        0 <= pos,
        pos + 8 <= s.len(),
        s.subrange(pos, pos + 8) == be_bytes_u64(n),
    ensures
        be_u64(s, pos) == n,
{
    let hi = (n / 0x1_0000_0000) as u32;
    let lo = (n % 0x1_0000_0000) as u32;
    assert(s.subrange(pos, pos + 4) =~= s.subrange(pos, pos + 8).subrange(0, 4));
    assert(s.subrange(pos + 4, pos + 8) =~= s.subrange(pos, pos + 8).subrange(4, 8));
    assert(be_bytes_u64(n).subrange(0, 4) =~= be_bytes_u32(hi));
    assert(be_bytes_u64(n).subrange(4, 8) =~= be_bytes_u32(lo));
    lemma_be_u32_roundtrip(hi, s, pos);
    lemma_be_u32_roundtrip(lo, s, pos + 4);
}

/// `byteorder::BigEndian::read_u16` on `buf[pos..]`: the big-endian value of
/// the two bytes at `pos`.
#[verifier::external_body]
pub fn read_be_u16(buf: &[u8], pos: usize) -> (r: u16)
    requires
        pos + 2 <= buf@.len(),
    ensures
        r == be_u16(buf@, pos as int),
{
    byteorder::BigEndian::read_u16(&buf[pos..])
}

/// `byteorder::BigEndian::read_u32` on `buf[pos..]`: the big-endian value of
/// the four bytes at `pos`.
#[verifier::external_body]
pub fn read_be_u32(buf: &[u8], pos: usize) -> (r: u32)
    requires
        pos + 4 <= buf@.len(),
    ensures
        r == be_u32(buf@, pos as int),
{
    byteorder::BigEndian::read_u32(&buf[pos..])
}

/// `byteorder::BigEndian::read_u64` on `buf[pos..]`: the big-endian value of
/// the eight bytes at `pos`.
#[verifier::external_body]
pub fn read_be_u64(buf: &[u8], pos: usize) -> (r: u64)
    requires
        pos + 8 <= buf@.len(),
    ensures
        r == be_u64(buf@, pos as int),
{
    byteorder::BigEndian::read_u64(&buf[pos..])
}

/// `byteorder::BigEndian::write_u16` into a fresh two-byte array: the
/// big-endian bytes of `n`.
#[verifier::external_body]
pub fn write_be_u16(n: u16) -> (r: [u8; 2])
    ensures
        r@ == be_bytes_u16(n),
{
    let mut b = [0u8; 2];
    byteorder::BigEndian::write_u16(&mut b, n);
    b
}

/// `byteorder::BigEndian::write_u32` into a fresh four-byte array: the
/// big-endian bytes of `n`.
#[verifier::external_body]
pub fn write_be_u32(n: u32) -> (r: [u8; 4])
    ensures
        r@ == be_bytes_u32(n),
{
    let mut b = [0u8; 4];
    byteorder::BigEndian::write_u32(&mut b, n);
    b
}

/// `byteorder::BigEndian::write_u64` into a fresh eight-byte array: the
/// big-endian bytes of `n`.
#[verifier::external_body]
pub fn write_be_u64(n: u64) -> (r: [u8; 8])
    ensures
        r@ == be_bytes_u64(n),
{
    let mut b = [0u8; 8];
    byteorder::BigEndian::write_u64(&mut b, n);
    b
}

/// Appends every byte of `src` to `buf`.
pub fn push_all(buf: &mut Vec<u8>, src: &[u8])
    ensures
        final(buf)@ == old(buf)@ + src@,
{
    let mut i: usize = 0;
    while i < src.len()
        invariant
            i <= src@.len(),
            buf@ == old(buf)@ + src@.subrange(0, i as int),
        decreases src@.len() - i,
    {
        buf.push(src[i]);
        i = i + 1;
        assert(src@.subrange(0, i as int) =~= src@.subrange(0, (i - 1) as int).push(src@[i - 1]));
    }
    assert(src@.subrange(0, src@.len() as int) =~= src@);
}

} // verus!
