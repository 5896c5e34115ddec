//! Little-endian byte composition and decomposition for the multi-byte
//! integer fields of FAT32 on-disk structures, with the round-trip lemmas
//! the structure encoders rely on.

use vstd::prelude::*;

verus! {

/// The 16-bit value stored on disk as `lo` then `hi`.
pub open spec fn le16(lo: u8, hi: u8) -> u16 {
    ((hi as u16) << 8) | (lo as u16)
}

/// The 32-bit value stored on disk as `b0`, `b1`, `b2`, `b3`.
pub open spec fn le32(b0: u8, b1: u8, b2: u8, b3: u8) -> u32 {
    ((b3 as u32) << 24) | ((b2 as u32) << 16) | ((b1 as u32) << 8) | (b0 as u32)
}

/// Byte `k` (0 = least significant) of a 16-bit value.
pub open spec fn le16_byte(v: u16, k: int) -> u8 {
    ((v >> (8 * k) as u16) & 0xFF) as u8
}

/// Byte `k` (0 = least significant) of a 32-bit value.
pub open spec fn le32_byte(v: u32, k: int) -> u8 {
    ((v >> (8 * k) as u32) & 0xFF) as u8
}

/// Decomposing a composed 16-bit value gives back the original bytes.
pub proof fn lemma_le16_round_trip(lo: u8, hi: u8)
    ensures
        le16_byte(le16(lo, hi), 0) == lo,
        le16_byte(le16(lo, hi), 1) == hi,
{
    assert((((((hi as u16) << 8) | (lo as u16)) >> 0) & 0xFF) as u8 == lo
        && (((((hi as u16) << 8) | (lo as u16)) >> 8) & 0xFF) as u8 == hi) by (bit_vector);
}

/// Decomposing a composed 32-bit value gives back the original bytes.
pub proof fn lemma_le32_round_trip(b0: u8, b1: u8, b2: u8, b3: u8)
    ensures
        le32_byte(le32(b0, b1, b2, b3), 0) == b0,
        le32_byte(le32(b0, b1, b2, b3), 1) == b1,
        le32_byte(le32(b0, b1, b2, b3), 2) == b2,
        le32_byte(le32(b0, b1, b2, b3), 3) == b3,
{
    assert(((((b3 as u32) << 24) | ((b2 as u32) << 16) | ((b1 as u32) << 8) | (b0 as u32)) >> 0
            & 0xFF) as u8 == b0
        && ((((b3 as u32) << 24) | ((b2 as u32) << 16) | ((b1 as u32) << 8) | (b0 as u32)) >> 8
            & 0xFF) as u8 == b1
        && ((((b3 as u32) << 24) | ((b2 as u32) << 16) | ((b1 as u32) << 8) | (b0 as u32)) >> 16
            & 0xFF) as u8 == b2
        && ((((b3 as u32) << 24) | ((b2 as u32) << 16) | ((b1 as u32) << 8) | (b0 as u32)) >> 24
            & 0xFF) as u8 == b3) by (bit_vector);
}

/// Compose a 16-bit value from its two little-endian bytes.
pub fn read_le16(lo: u8, hi: u8) -> (v: u16)
    ensures
        v == le16(lo, hi),
{
    ((hi as u16) << 8) | (lo as u16)
}

/// Compose a 32-bit value from its four little-endian bytes.
pub fn read_le32(b0: u8, b1: u8, b2: u8, b3: u8) -> (v: u32)
    ensures
        v == le32(b0, b1, b2, b3),
{
    ((b3 as u32) << 24) | ((b2 as u32) << 16) | ((b1 as u32) << 8) | (b0 as u32)
}

/// Append the two little-endian bytes of `v` to `out`.
pub fn push_le16(out: &mut Vec<u8>, v: u16)
    ensures
        final(out)@ == old(out)@ + seq![le16_byte(v, 0), le16_byte(v, 1)],
{
    out.push(((v >> 0) & 0xFF) as u8);
    out.push(((v >> 8) & 0xFF) as u8);
    assert(out@ =~= old(out)@ + seq![le16_byte(v, 0), le16_byte(v, 1)]);
}

/// Append the four little-endian bytes of `v` to `out`.
pub fn push_le32(out: &mut Vec<u8>, v: u32)
    ensures
        final(out)@ == old(out)@ + seq![
            le32_byte(v, 0),
            le32_byte(v, 1),
            le32_byte(v, 2),
            le32_byte(v, 3),
        ],
{
    out.push(((v >> 0) & 0xFF) as u8);
    out.push(((v >> 8) & 0xFF) as u8);
    out.push(((v >> 16) & 0xFF) as u8);
    out.push(((v >> 24) & 0xFF) as u8);
    assert(out@ =~= old(out)@ + seq![
        le32_byte(v, 0),
        le32_byte(v, 1),
        le32_byte(v, 2),
        le32_byte(v, 3),
    ]);
}

} // verus!
