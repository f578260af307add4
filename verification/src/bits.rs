//! Facts about bytes and bit masks that the register, bus and mapper proofs
//! share.
use vstd::prelude::*;

verus! {

/// Joining two bytes into a 16-bit word, and splitting one back.
pub proof fn lemma_byte_pair()
    by (bit_vector)
    ensures
        forall|hi: u8, lo: u8| #[trigger] ((hi as u16) << 8 | lo as u16) == hi as u16 * 256 + lo as u16,
        forall|hi: u16, lo: u16|
            hi < 256 && lo < 256 ==> #[trigger] ((hi << 8) | lo) == hi * 256 + lo,
        forall|v: u16| #[trigger] ((v >> 8) as u8) == v / 256,
        forall|v: u16| #[trigger] (v as u8) == v % 256,
        forall|v: u8| #[trigger] ((v as u16) << 8) == v as u16 * 256,
{
}

/// Bounds of masked values, and masks that leave a value unchanged.
pub proof fn lemma_mask_bounds()
    by (bit_vector)
    ensures
        forall|x: u8| #[trigger] (x & 0x0F) <= 0x0F,
        forall|x: u8| #[trigger] ((x & 0x0F) & 0x0F) == x & 0x0F,
        forall|x: u8| #[trigger] ((x & 0x30) & 0xCF) == 0,
        forall|x: u16| #[trigger] (x & 0x0F) <= 0x0F,
        forall|x: u16| #[trigger] (x & 0xFF) <= 0xFF,
        forall|x: u16| #[trigger] (x & 0x0FFF) <= 0x0FFF,
        forall|x: u16| #[trigger] (x & 0x1FFF) < 0x2000,
        forall|x: u16| #[trigger] (x & 0x1FF) < 512,
        forall|x: u8| #[trigger] (x | 0u8) == x,
        forall|x: u8, y: u8| #[trigger] ((0xC0u8 | x) | y) & 0xC0 == 0xC0,
        forall|f: u8, e: u8| #[trigger] ((f & e & 0x1F) & 0x1F) == f & e & 0x1F,
        0x30u8 & 0xCFu8 == 0,
        0x0Fu8 & 0xF0u8 == 0,
{
}

/// Setting and clearing one bit of a nibble.
pub proof fn lemma_nibble_bits()
    by (bit_vector)
    ensures
        (1u8 << 0u8) == 1u8 && (1u8 << 1u8) == 2u8 && (1u8 << 2u8) == 4u8 && (1u8 << 3u8) == 8u8,
        (1u8 << 4u8) == 0x10u8 && (1u8 << 5u8) == 0x20u8 && (1u8 << 6u8) == 0x40u8 && (1u8 << 7u8)
            == 0x80u8,
        forall|d: u8, b: u8|
            b < 4 && d & 0xF0 == 0 ==> #[trigger] (d & !(1u8 << b)) & 0xF0 == 0 && (d | (1u8 << b))
                & 0xF0 == 0,
        forall|d: u8, b: u8|
            b < 8 && d & (1u8 << b) != 0 ==> ((#[trigger] (d & !(1u8 << b))) | (1u8 << b)) == d,
        forall|d: u8, b: u8| b < 8 ==> (#[trigger] (d & !(1u8 << b))) & (1u8 << b) == 0,
{
}

} // verus!
