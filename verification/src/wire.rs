//! Big-endian integers as they stand in the messages between agent and viewer.

use vstd::prelude::*;

verus! {

/// The two bytes of `v`, most significant first.
pub open spec fn be16(v: int) -> Seq<u8> {
    seq![(v / 0x100) as u8, (v % 0x100) as u8]
}

/// The four bytes of `v`, most significant first.
pub open spec fn be32(v: int) -> Seq<u8> {
    seq![
        (v / 0x100_0000) as u8,
        (v / 0x1_0000 % 0x100) as u8,
        (v / 0x100 % 0x100) as u8,
        (v % 0x100) as u8,
    ]
}

/// The eight bytes of `v`, most significant first.
pub open spec fn be64(v: int) -> Seq<u8> {
    be32(v / 0x1_0000_0000) + be32(v % 0x1_0000_0000)
}

/// The number that the two bytes of `s` from `i` on spell.
pub open spec fn be16_at(s: Seq<u8>, i: int) -> int {
    s[i] * 0x100 + s[i + 1]
}

/// The number that the four bytes of `s` from `i` on spell.
pub open spec fn be32_at(s: Seq<u8>, i: int) -> int {
    s[i] * 0x100_0000 + s[i + 1] * 0x1_0000 + s[i + 2] * 0x100 + s[i + 3]
}

/// The number that the eight bytes of `s` from `i` on spell.
pub open spec fn be64_at(s: Seq<u8>, i: int) -> int {
    be32_at(s, i) * 0x1_0000_0000 + be32_at(s, i + 4)
}

/// `v` modulo 2^16, the two's complement of a 16-bit number.
pub open spec fn wrap16(v: int) -> int {
    v % 0x1_0000
}

/// `v` modulo 2^32, the two's complement of a 32-bit number.
pub open spec fn wrap32(v: int) -> int {
    v % 0x1_0000_0000
}

/// The signed 16-bit number whose two's complement is `v`.
pub open spec fn signed16(v: int) -> int {
    if v < 0x8000 {
        v
    } else {
        v - 0x1_0000
    }
}

/// The signed 32-bit number whose two's complement is `v`.
pub open spec fn signed32(v: int) -> int {
    if v < 0x8000_0000 {
        v
    } else {
        v - 0x1_0000_0000
    }
}

/// A 16-bit number is read back from where its bytes stand.
pub proof fn be16_roundtrip(head: Seq<u8>, v: int, tail: Seq<u8>)
    requires
        0 <= v < 0x1_0000,
    ensures
        be16_at(head + be16(v) + tail, head.len() as int) == v,
{
    let s = head + be16(v) + tail;
    let n = head.len() as int;
    assert(s[n] == be16(v)[0]);
    assert(s[n + 1] == be16(v)[1]);
}

/// A 32-bit number is read back from where its bytes stand.
pub proof fn be32_roundtrip(head: Seq<u8>, v: int, tail: Seq<u8>)
    requires
        0 <= v < 0x1_0000_0000,
    ensures
        be32_at(head + be32(v) + tail, head.len() as int) == v,
{
    let s = head + be32(v) + tail;
    let n = head.len() as int;
    assert(s[n] == be32(v)[0]);
    assert(s[n + 1] == be32(v)[1]);
    assert(s[n + 2] == be32(v)[2]);
    assert(s[n + 3] == be32(v)[3]);
}

/// A 64-bit number is read back from where its bytes stand.
pub proof fn be64_roundtrip(head: Seq<u8>, v: int, tail: Seq<u8>)
    requires
        0 <= v < 0x1_0000_0000_0000_0000,
    ensures
        be64_at(head + be64(v) + tail, head.len() as int) == v,
{
    let high = be32(v / 0x1_0000_0000);
    let low = be32(v % 0x1_0000_0000);
    be32_roundtrip(head, v / 0x1_0000_0000, low + tail);
    be32_roundtrip(head + high, v % 0x1_0000_0000, tail);
    assert(head + be64(v) + tail =~= head + high + (low + tail));
    assert(head + be64(v) + tail =~= head + high + low + tail);
}

/// Appends the two bytes of `v`.
pub fn push_u16(out: &mut Vec<u8>, v: u16)
    ensures
        final(out)@ == old(out)@ + be16(v as int),
{
    out.push((v / 0x100) as u8);
    out.push((v % 0x100) as u8);
}

/// Appends the four bytes of `v`.
pub fn push_u32(out: &mut Vec<u8>, v: u32)
    ensures
        final(out)@ == old(out)@ + be32(v as int),
{
    out.push((v / 0x100_0000) as u8);
    out.push((v / 0x1_0000 % 0x100) as u8);
    out.push((v / 0x100 % 0x100) as u8);
    out.push((v % 0x100) as u8);
}

/// Appends the eight bytes of `v`.
pub fn push_u64(out: &mut Vec<u8>, v: u64)
    ensures
        final(out)@ == old(out)@ + be64(v as int),
{
    push_u32(out, (v / 0x1_0000_0000) as u32);
    push_u32(out, (v % 0x1_0000_0000) as u32);
}

/// Appends the two's complement of `v` in two bytes.
pub fn push_i16(out: &mut Vec<u8>, v: i16)
    ensures
        final(out)@ == old(out)@ + be16(wrap16(v as int)),
{
    if v >= 0 {
        push_u16(out, v as u16);
    } else {
        push_u16(out, (v as i32 + 0x1_0000) as u16);
    }
}

/// Appends the two's complement of `v` in four bytes.
pub fn push_i32(out: &mut Vec<u8>, v: i32)
    ensures
        final(out)@ == old(out)@ + be32(wrap32(v as int)),
{
    if v >= 0 {
        push_u32(out, v as u32);
    } else {
        push_u32(out, (v as i64 + 0x1_0000_0000) as u32);
    }
}

/// Reads the unsigned number in two bytes from `i` on.
pub fn read_u16(bytes: &[u8], i: usize) -> (v: u16)
    requires
        i + 2 <= bytes.len(),
    ensures
        v == be16_at(bytes@, i as int),
{
    bytes[i] as u16 * 0x100 + bytes[i + 1] as u16
}

/// Reads the unsigned number in four bytes from `i` on.
pub fn read_u32(bytes: &[u8], i: usize) -> (v: u32)
    requires
        i + 4 <= bytes.len(),
    ensures
        v == be32_at(bytes@, i as int),
{
    bytes[i] as u32 * 0x100_0000 + bytes[i + 1] as u32 * 0x1_0000 + bytes[i + 2] as u32 * 0x100
        + bytes[i + 3] as u32
}

/// Reads the unsigned number in eight bytes from `i` on.
pub fn read_u64(bytes: &[u8], i: usize) -> (v: u64)
    requires
        i + 8 <= bytes.len(),
    ensures
        v == be64_at(bytes@, i as int),
{
    read_u32(bytes, i) as u64 * 0x1_0000_0000 + read_u32(bytes, i + 4) as u64
}

/// Reads the signed number in two bytes from `i` on.
pub fn read_i16(bytes: &[u8], i: usize) -> (v: i16)
    requires
        i + 2 <= bytes.len(),
    ensures
        v == signed16(be16_at(bytes@, i as int)),
{
    let u: u16 = read_u16(bytes, i);
    if u < 0x8000 {
        u as i16
    } else {
        (u as i32 - 0x1_0000) as i16
    }
}

/// Reads the signed number in four bytes from `i` on.
pub fn read_i32(bytes: &[u8], i: usize) -> (v: i32)
    requires
        i + 4 <= bytes.len(),
    ensures
        v == signed32(be32_at(bytes@, i as int)),
{
    let u: u32 = read_u32(bytes, i);
    if u < 0x8000_0000 {
        u as i32
    } else {
        (u as i64 - 0x1_0000_0000) as i32
    }
}

} // verus!
