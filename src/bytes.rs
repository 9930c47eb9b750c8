//! Little-endian 32-bit integers inside byte buffers.

use vstd::prelude::*;

verus! {

/// The four little-endian bytes of `v`.
#[verifier::opaque]
pub open spec fn le_bytes(v: u32) -> Seq<u8> {
    seq![
        (v % 256) as u8,
        ((v / 256) % 256) as u8,
        ((v / 65536) % 256) as u8,
        (v / 16777216) as u8,
    ]
}

/// The little-endian 32-bit value held by `s[off..off + 4]`.
pub open spec fn u32_at(s: Seq<u8>, off: int) -> u32 {
    (s[off] as int + 256 * s[off + 1] as int + 65536 * s[off + 2] as int + 16777216 * s[off
        + 3] as int) as u32
}

/// `s[off..off + 4]` holds the little-endian bytes of `v`.
pub open spec fn holds_u32(s: Seq<u8>, off: int, v: u32) -> bool {
    &&& 0 <= off
    &&& off + 4 <= s.len()
    &&& s[off] == le_bytes(v)[0]
    &&& s[off + 1] == le_bytes(v)[1]
    &&& s[off + 2] == le_bytes(v)[2]
    &&& s[off + 3] == le_bytes(v)[3]
}

/// Reading back the bytes written for a value gives the value.
pub proof fn lemma_u32_round_trip(s: Seq<u8>, off: int, v: u32)
    requires
        holds_u32(s, off, v),
    ensures
        u32_at(s, off) == v,
{
    reveal(le_bytes);
    let b0 = v % 256;
    let b1 = (v / 256) % 256;
    let b2 = (v / 65536) % 256;
    let b3 = v / 16777216;
    assert(v == b0 + 256 * b1 + 65536 * b2 + 16777216 * b3) by (bit_vector)
        requires
            b0 == v % 256,
            b1 == (v / 256) % 256,
            b2 == (v / 65536) % 256,
            b3 == v / 16777216,
    ;
}

/// Reads the little-endian `u32` at the start of `buf`.
pub fn u32le_from(buf: &[u8]) -> (r: u32)
    requires
        buf@.len() >= 4,
    ensures
        r == u32_at(buf@, 0),
{
    let b0 = buf[0] as u32;
    let b1 = buf[1] as u32;
    let b2 = buf[2] as u32;
    let b3 = buf[3] as u32;
    b0 + b1 * 256 + b2 * 65536 + b3 * 16777216
}

/// Writes `v` in little-endian order into `p[at..at + 4]`, leaving every
/// other byte as it was.
pub fn u32le_write(v: u32, p: &mut Vec<u8>, at: usize)
    requires
        at + 4 <= old(p)@.len(),
    ensures
        final(p)@.len() == old(p)@.len(),
        holds_u32(final(p)@, at as int, v),
        forall|i: int|
            0 <= i < old(p)@.len() && !(at <= i < at + 4) ==> final(p)@[i] == old(p)@[i],
{
    reveal(le_bytes);
    let ghost n = p.len();
    assert(n <= usize::MAX);
    p.set(at, (v % 256) as u8);
    p.set(at + 1, ((v / 256) % 256) as u8);
    p.set(at + 2, ((v / 65536) % 256) as u8);
    p.set(at + 3, (v / 16777216) as u8);
}

} // verus!
