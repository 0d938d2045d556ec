//! Small facts about fixed-width bit operations used throughout the crate.

use vstd::prelude::*;

verus! {

/// Little-endian 16-bit value of two bytes.
pub open spec fn le16(lo: u8, hi: u8) -> u16 {
    (lo as u16) | ((hi as u16) << 8u16)
}

/// Little-endian 32-bit value of four bytes.
pub open spec fn le32(b0: u8, b1: u8, b2: u8, b3: u8) -> u32 {
    (b0 as u32) | ((b1 as u32) << 8u32) | ((b2 as u32) << 16u32) | ((b3 as u32) << 24u32)
}

pub proof fn lemma_u8_and_le(x: u8, m: u8)
    ensures
        x & m <= m,
        x & m <= x,
{
    assert(x & m <= m && x & m <= x) by (bit_vector);
}

pub proof fn lemma_u16_and_le(x: u16, m: u16)
    ensures
        x & m <= m,
        x & m <= x,
{
    assert(x & m <= m && x & m <= x) by (bit_vector);
}

pub proof fn lemma_u32_and_le(x: u32, m: u32)
    ensures
        x & m <= m,
        x & m <= x,
{
    assert(x & m <= m && x & m <= x) by (bit_vector);
}

pub proof fn lemma_usize_and_le(x: usize, m: usize)
    ensures
        x & m <= m,
        x & m <= x,
{
    assert(x & m <= m && x & m <= x) by (bit_vector);
}

/// Clearing low bits never increases a value.
pub proof fn lemma_u32_and_not_le(x: u32, m: u32)
    ensures
        x & !m <= x,
{
    assert(x & !m <= x) by (bit_vector);
}

/// A word shifted right by eight fits in 24 bits.
pub proof fn lemma_u32_shr8(x: u32)
    ensures
        x >> 8u32 <= 0xff_ffff,
{
    assert(x >> 8u32 <= 0xff_ffff) by (bit_vector);
}

pub proof fn lemma_u16_shr_bound(x: u16, s: u16)
    requires
        s < 16,
    ensures
        x >> s <= 0xffffu16 >> s,
{
    assert(x >> s <= 0xffffu16 >> s) by (bit_vector)
        requires
            s < 16,
    ;
}

/// A word's low two bits are clear exactly when it is a multiple of four.
pub proof fn lemma_u32_mod4(x: u32)
    ensures
        (x & 3 == 0) == (x % 4 == 0),
{
    assert((x & 3 == 0) == (x % 4 == 0)) by (bit_vector);
}

/// A signed word survives a round trip through its unsigned bit pattern.
pub proof fn lemma_i32_roundtrip(x: i32)
    ensures
        (x as u32) as i32 == x,
        x >= 0 ==> x as u32 == x,
        x < 0 ==> x as u32 == x + 0x1_0000_0000,
{
    assert((x as u32) as i32 == x && (x >= 0 ==> x as u32 == x) && (x < 0 ==> x as u32 == x
        + 0x1_0000_0000)) by (bit_vector);
}

} // verus!
