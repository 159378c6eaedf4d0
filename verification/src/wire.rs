//! Fixed-width integers as bytes on the wire.
//!
//! Every protocol field is a 32-bit or 64-bit unsigned integer laid out least
//! significant byte first, the byte order of the platform this layer serves.

use vstd::prelude::*;

verus! {

/// The four bytes of `v`, least significant first.
pub open spec fn u32_bytes(v: u32) -> Seq<u8> {
    seq![
        (v % 256) as u8,
        (v / 256 % 256) as u8,
        (v / 65536 % 256) as u8,
        (v / 16777216 % 256) as u8,
    ]
}

/// The 32-bit value whose least significant byte is `b0`.
pub open spec fn u32_of(b0: u8, b1: u8, b2: u8, b3: u8) -> u32 {
    (b0 as int + b1 as int * 256 + b2 as int * 65536 + b3 as int * 16777216) as u32
}

/// The 32-bit value stored in `bytes` at offset `at`.
pub open spec fn u32_at(bytes: Seq<u8>, at: int) -> u32 {
    u32_of(bytes[at], bytes[at + 1], bytes[at + 2], bytes[at + 3])
}

/// The eight bytes of `v`, least significant first.
pub open spec fn u64_bytes(v: u64) -> Seq<u8> {
    u32_bytes((v % 0x1_0000_0000) as u32) + u32_bytes((v / 0x1_0000_0000) as u32)
}

/// The 64-bit value stored in `bytes` at offset `at`.
pub open spec fn u64_at(bytes: Seq<u8>, at: int) -> u64 {
    (u32_at(bytes, at) as int + u32_at(bytes, at + 4) as int * 0x1_0000_0000) as u64
}

/// Reading four bytes that were written from `v` gives `v` back.
pub proof fn lemma_u32_round_trip(v: u32)
    ensures
        u32_bytes(v).len() == 4,
        u32_at(u32_bytes(v), 0) == v,
{
}

/// Reading eight bytes that were written from `v` gives `v` back.
pub proof fn lemma_u64_round_trip(v: u64)
    ensures
        u64_bytes(v).len() == 8,
        u64_at(u64_bytes(v), 0) == v,
{
    let lo = (v % 0x1_0000_0000) as u32;
    let hi = (v / 0x1_0000_0000) as u32;
    lemma_u32_round_trip(lo);
    lemma_u32_round_trip(hi);
    let s = u64_bytes(v);
    assert(s[0] == u32_bytes(lo)[0] && s[1] == u32_bytes(lo)[1] && s[2] == u32_bytes(lo)[2]
        && s[3] == u32_bytes(lo)[3]);
    assert(s[4] == u32_bytes(hi)[0] && s[5] == u32_bytes(hi)[1] && s[6] == u32_bytes(hi)[2]
        && s[7] == u32_bytes(hi)[3]);
}

/// A 32-bit field at offset `k` of the `size` bytes that start at `at` is the
/// field at offset `at + k` of the whole.
pub proof fn lemma_u32_at_window(bytes: Seq<u8>, at: int, size: int, k: int)
    requires
        0 <= at,
        0 <= k,
        k + 4 <= size,
        at + size <= bytes.len(),
    ensures
        u32_at(bytes.subrange(at, at + size), k) == u32_at(bytes, at + k),
{
}

/// A 64-bit field at offset `k` of the `size` bytes that start at `at` is the
/// field at offset `at + k` of the whole.
pub proof fn lemma_u64_at_window(bytes: Seq<u8>, at: int, size: int, k: int)
    requires
        0 <= at,
        0 <= k,
        k + 8 <= size,
        at + size <= bytes.len(),
    ensures
        u64_at(bytes.subrange(at, at + size), k) == u64_at(bytes, at + k),
{
    lemma_u32_at_window(bytes, at, size, k);
    lemma_u32_at_window(bytes, at, size, k + 4);
}

/// Appends the four bytes of `v` to `out`.
pub fn put_u32(out: &mut Vec<u8>, v: u32)
    ensures
        final(out)@ == old(out)@ + u32_bytes(v),
{
    out.push((v % 256) as u8);
    out.push((v / 256 % 256) as u8);
    out.push((v / 65536 % 256) as u8);
    out.push((v / 16777216 % 256) as u8);
    assert(out@ =~= old(out)@ + u32_bytes(v));
}

/// Appends the eight bytes of `v` to `out`.
pub fn put_u64(out: &mut Vec<u8>, v: u64)
    ensures
        final(out)@ == old(out)@ + u64_bytes(v),
{
    put_u32(out, (v % 0x1_0000_0000) as u32);
    put_u32(out, (v / 0x1_0000_0000) as u32);
    assert(out@ =~= old(out)@ + u64_bytes(v));
}

/// Reads the 32-bit value stored in `bytes` at offset `at`.
pub fn get_u32(bytes: &[u8], at: usize) -> (v: u32)
    requires
        at + 4 <= bytes.len(),
    ensures
        v == u32_at(bytes@, at as int),
{
    let b0: u32 = bytes[at] as u32;
    let b1: u32 = bytes[at + 1] as u32;
    let b2: u32 = bytes[at + 2] as u32;
    let b3: u32 = bytes[at + 3] as u32;
    b0 + b1 * 256 + b2 * 65536 + b3 * 16777216
}

/// Reads the 64-bit value stored in `bytes` at offset `at`.
pub fn get_u64(bytes: &[u8], at: usize) -> (v: u64)
    requires
        at + 8 <= bytes.len(),
    ensures
        v == u64_at(bytes@, at as int),
{
    let lo: u64 = get_u32(bytes, at) as u64;
    let hi: u64 = get_u32(bytes, at + 4) as u64;
    lo + hi * 0x1_0000_0000
}

} // verus!
