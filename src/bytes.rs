//! Little-endian integers in byte sequences, read at a position and appended
//! to a buffer.
use vstd::prelude::*;

verus! {

/// The value of two bytes, least significant first.
pub open spec fn le_u16(b: Seq<u8>) -> int {
    b[0] as int + b[1] as int * 0x100
}

/// The value of four bytes, least significant first.
pub open spec fn le_u32(b: Seq<u8>) -> int {
    b[0] as int + b[1] as int * 0x100 + b[2] as int * 0x1_0000 + b[3] as int * 0x100_0000
}

/// The value of eight bytes, least significant first.
pub open spec fn le_u64(b: Seq<u8>) -> int {
    le_u32(b.subrange(0, 4)) + le_u32(b.subrange(4, 8)) * 0x1_0000_0000
}

/// A 32-bit two's complement value read from its unsigned bit pattern.
pub open spec fn signed_of_bits(u: int) -> int {
    if u < 0x8000_0000 {
        u
    } else {
        u - 0x1_0000_0000
    }
}

/// The unsigned bit pattern of a 32-bit two's complement value.
pub open spec fn bits_of_signed(v: i32) -> u32 {
    if v >= 0 {
        v as u32
    } else {
        (v + 0x1_0000_0000) as u32
    }
}

/// The two bytes of `v`, least significant first.
pub open spec fn le_bytes_u16(v: u16) -> Seq<u8> {
    seq![(v % 0x100) as u8, (v / 0x100) as u8]
}

/// The four bytes of `v`, least significant first.
pub open spec fn le_bytes_u32(v: u32) -> Seq<u8> {
    seq![
        (v % 0x100) as u8,
        ((v / 0x100) % 0x100) as u8,
        ((v / 0x1_0000) % 0x100) as u8,
        (v / 0x100_0000) as u8,
    ]
}

/// The eight bytes of `v`, least significant first.
pub open spec fn le_bytes_u64(v: u64) -> Seq<u8> {
    le_bytes_u32((v % 0x1_0000_0000) as u32) + le_bytes_u32((v / 0x1_0000_0000) as u32)
}

/// Reads the two bytes at `pos` as a little-endian `u16`.
pub fn read_u16_le(src: &[u8], pos: usize) -> (r: u16)
    requires
        pos + 2 <= src@.len(),
    ensures
        r as int == le_u16(src@.subrange(pos as int, pos + 2)),
{
    let b0 = src[pos] as u16;
    let b1 = src[pos + 1] as u16;
    b0 + b1 * 0x100
}

/// Reads the four bytes at `pos` as a little-endian `u32`.
pub fn read_u32_le(src: &[u8], pos: usize) -> (r: u32)
    requires
        pos + 4 <= src@.len(),
    ensures
        r as int == le_u32(src@.subrange(pos as int, pos + 4)),
{
    let b0 = src[pos] as u32;
    let b1 = src[pos + 1] as u32;
    let b2 = src[pos + 2] as u32;
    let b3 = src[pos + 3] as u32;
    b0 + b1 * 0x100 + b2 * 0x1_0000 + b3 * 0x100_0000
}

/// Reads the four bytes at `pos` as a little-endian two's complement `i32`.
pub fn read_i32_le(src: &[u8], pos: usize) -> (r: i32)
    requires
        pos + 4 <= src@.len(),
    ensures
        r as int == signed_of_bits(le_u32(src@.subrange(pos as int, pos + 4))),
{
    let u = read_u32_le(src, pos);
    if u < 0x8000_0000 {
        u as i32
    } else {
        let low = (u - 0x8000_0000) as i32;
        low - 0x7fff_ffff - 1
    }
}

/// Reads the eight bytes at `pos` as a little-endian `u64`.
pub fn read_u64_le(src: &[u8], pos: usize) -> (r: u64)
    requires
        pos + 8 <= src@.len(),
    ensures
        r as int == le_u64(src@.subrange(pos as int, pos + 8)),
{
    let len = src.len();
    assert(pos + 4 < len);
    let lo = read_u32_le(src, pos);
    let hi = read_u32_le(src, pos + 4);
    assert(src@.subrange(pos as int, pos + 8).subrange(0, 4) == src@.subrange(
        pos as int,
        pos + 4,
    ));
    assert(src@.subrange(pos as int, pos + 8).subrange(4, 8) == src@.subrange(
        pos + 4,
        pos + 8,
    ));
    lo as u64 + (hi as u64) * 0x1_0000_0000
}

/// Appends the two bytes of `v`, least significant first.
pub fn push_u16_le(dest: &mut Vec<u8>, v: u16)
    ensures
        final(dest)@ == old(dest)@ + le_bytes_u16(v),
{
    dest.push((v % 0x100) as u8);
    dest.push((v / 0x100) as u8);
    assert(final(dest)@ =~= old(dest)@ + le_bytes_u16(v));
}

/// Appends the four bytes of `v`, least significant first.
pub fn push_u32_le(dest: &mut Vec<u8>, v: u32)
    ensures
        final(dest)@ == old(dest)@ + le_bytes_u32(v),
{
    dest.push((v % 0x100) as u8);
    dest.push(((v / 0x100) % 0x100) as u8);
    dest.push(((v / 0x1_0000) % 0x100) as u8);
    dest.push((v / 0x100_0000) as u8);
    assert(final(dest)@ =~= old(dest)@ + le_bytes_u32(v));
}

/// Appends the bit pattern of `v`, least significant byte first.
pub fn push_i32_le(dest: &mut Vec<u8>, v: i32)
    ensures
        final(dest)@ == old(dest)@ + le_bytes_u32(bits_of_signed(v)),
{
    let u: u32 = if v >= 0 {
        v as u32
    } else {
        ((v + 0x7fff_ffff + 1) as u32) + 0x8000_0000
    };
    push_u32_le(dest, u);
}

/// Appends the eight bytes of `v`, least significant first.
pub fn push_u64_le(dest: &mut Vec<u8>, v: u64)
    ensures
        final(dest)@ == old(dest)@ + le_bytes_u64(v),
{
    push_u32_le(dest, (v % 0x1_0000_0000) as u32);
    push_u32_le(dest, (v / 0x1_0000_0000) as u32);
    assert(final(dest)@ =~= old(dest)@ + le_bytes_u64(v));
}

/// Reading back the two bytes written for a `u16` gives the value.
pub proof fn lemma_u16_round_trip(v: u16)
    ensures
        le_bytes_u16(v).len() == 2,
        le_u16(le_bytes_u16(v)) == v,
{
}

/// Reading back the four bytes written for a `u32` gives the value.
pub proof fn lemma_u32_round_trip(v: u32)
    ensures
        le_bytes_u32(v).len() == 4,
        le_u32(le_bytes_u32(v)) == v,
{
}

/// Reading back the four bytes written for an `i32` gives the value.
pub proof fn lemma_i32_round_trip(v: i32)
    ensures
        signed_of_bits(le_u32(le_bytes_u32(bits_of_signed(v)))) == v,
{
    lemma_u32_round_trip(bits_of_signed(v));
}

/// Reading back the eight bytes written for a `u64` gives the value.
pub proof fn lemma_u64_round_trip(v: u64)
    ensures
        le_bytes_u64(v).len() == 8,
        le_u64(le_bytes_u64(v)) == v,
{
    let lo = (v % 0x1_0000_0000) as u32;
    let hi = (v / 0x1_0000_0000) as u32;
    lemma_u32_round_trip(lo);
    lemma_u32_round_trip(hi);
    assert(le_bytes_u64(v).subrange(0, 4) =~= le_bytes_u32(lo));
    assert(le_bytes_u64(v).subrange(4, 8) =~= le_bytes_u32(hi));
}

} // verus!
