//! Little-endian views of a byte memory: what a load of one, two or four bytes
//! reads, and what a store of one, two or four bytes leaves behind.
use vstd::prelude::*;

verus! {

/// The size of the simulated memory: one mebibyte.
pub const MEM_SIZE: usize = 0x10_0000;

/// The byte at address `a`, as a word.
pub open spec fn le8(m: Seq<u8>, a: int) -> u32 {
    m[a] as u32
}

/// The little-endian half word at address `a`.
pub open spec fn le16(m: Seq<u8>, a: int) -> u32 {
    (m[a] + 0x100 * m[a + 1]) as u32
}

/// The little-endian word at address `a`.
pub open spec fn le32(m: Seq<u8>, a: int) -> u32 {
    (m[a] + 0x100 * m[a + 1] + 0x1_0000 * m[a + 2] + 0x100_0000 * m[a + 3]) as u32
}

/// Byte `k` (counted from the least significant) of a word.
pub open spec fn byte_of(v: u32, k: int) -> u8 {
    if k == 0 {
        (v % 0x100) as u8
    } else if k == 1 {
        ((v / 0x100) % 0x100) as u8
    } else if k == 2 {
        ((v / 0x1_0000) % 0x100) as u8
    } else {
        (v / 0x100_0000) as u8
    }
}

/// Memory after storing the low byte of `v` at `a`.
pub open spec fn store8(m: Seq<u8>, a: int, v: u32) -> Seq<u8> {
    m.update(a, byte_of(v, 0))
}

/// Memory after storing the low half word of `v` at `a`, little-endian.
pub open spec fn store16(m: Seq<u8>, a: int, v: u32) -> Seq<u8> {
    m.update(a, byte_of(v, 0)).update(a + 1, byte_of(v, 1))
}

/// Memory after storing `v` at `a`, little-endian.
pub open spec fn store32(m: Seq<u8>, a: int, v: u32) -> Seq<u8> {
    m.update(a, byte_of(v, 0)).update(a + 1, byte_of(v, 1)).update(a + 2, byte_of(v, 2)).update(
        a + 3,
        byte_of(v, 3),
    )
}

/// Assembling the four bytes of a word gives the word back.
pub proof fn lemma_bytes_of_word(v: u32)
    ensures
        byte_of(v, 0) + 0x100 * byte_of(v, 1) + 0x1_0000 * byte_of(v, 2) + 0x100_0000 * byte_of(
            v,
            3,
        ) == v,
        byte_of(v, 0) + 0x100 * byte_of(v, 1) == v % 0x1_0000,
        byte_of(v, 0) == v % 0x100,
{
    let b0 = byte_of(v, 0);
    let b1 = byte_of(v, 1);
    let b2 = byte_of(v, 2);
    let b3 = byte_of(v, 3);
    assert(b0 + 0x100 * b1 + 0x1_0000 * b2 + 0x100_0000 * b3 == v) by (nonlinear_arith)
        requires
            b0 == v % 0x100,
            b1 == (v / 0x100) % 0x100,
            b2 == (v / 0x1_0000) % 0x100,
            b3 == v / 0x100_0000,
    ;
    assert(b0 + 0x100 * b1 == v % 0x1_0000) by (nonlinear_arith)
        requires
            b0 == v % 0x100,
            b1 == (v / 0x100) % 0x100,
    ;
}

} // verus!
