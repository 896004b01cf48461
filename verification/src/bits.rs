//! Shifted field masks and values used by the register programs, as plain numbers.
use vstd::prelude::*;

verus! {

/// The field masks and values the register programs build with shifts and ors, and the
/// phase-tag flips, evaluated.
pub proof fn shift_constants()
    by (bit_vector)
    ensures
        (0b1111_1111u32 << 20u32) == 0x0FF0_0000u32,
        (0b0001_0000u32 << 20u32) == 0x0100_0000u32,
        (0xFu32 << 28u32) == 0xF000_0000u32,
        (0b1111u32 << 28u32) == 0xF000_0000u32,
        (0b0011u32 << 28u32) == 0x3000_0000u32,
        (0xFF9Fu32 << 16u32) == 0xFF9F_0000u32,
        (1u32 << 31u32) == 0x8000_0000u32,
        (1u32 << 7u32) == 0x80u32,
        ((1u32 << 2u32) | (1u32 << 12u32)) == 0x1004u32,
        (0b1111_0000u32 << 8u32) == 0xF000u32,
        (0b1010_1000u32 << 8u32) == 0xA800u32,
        (0b1111_1111u32 << 8u32) == 0xFF00u32,
        (0b1101_1000u32 << 8u32) == 0xD800u32,
        (0b0011_1111u32 << 16u32) == 0x003F_0000u32,
        (0b0010_0100u32 << 16u32) == 0x0024_0000u32,
        (0xFFFFu32 << 16u32) == 0xFFFF_0000u32,
        (0x5555u32 << 16u32) == 0x5555_0000u32,
        (0b0001_0000u32 << 24u32) == 0x1000_0000u32,
        ((63u32 << 16u32) | 1u32) == 63u32 * 65536 + 1,
        ((1u32 << 16u32) | 1u32) == 65537u32,
        (1u64 << 4u64 | 1u64 << 5u64) == 0x30u64,
        (1u64 | (1u64 << 1u64)) == 0b11u64,
        (0u8 ^ 1u8) == 1u8,
        (1u8 ^ 1u8) == 0u8,
        (0u32 << 12u32) == 0u32,
        ((1u32 << 31u32) | (((512u32 / 8) & 0xFF) << 8u32)) == 0x8000_4000u32,
        (0xB8A0_0000u32 & 0xFFFF_FC00u32) == 0xB8A0_0000u32,
        (0xB8B0_0000u32 & 0xFFFF_FC00u32) == 0xB8B0_0000u32,
        (0xB8C0_0000u32 & 0xFFFF_FC00u32) == 0xB8C0_0000u32,
        (0xB8D0_0000u32 & 0xFFFF_FC00u32) == 0xB8D0_0000u32,
        ((1u32 << 8u32) | (1u32 << 22u32) | (1u32 << 20u32) | (1u32 << 19u32) | (1u32 << 21u32) | (1u32 << 13u32))
            == 0x0078_2100u32,
        ((0x0046_0000u32 & !1u32) | 1u32) == 0x0046_0001u32,
        (0x0046_0000u32 | 1u32) == 0x0046_0001u32,
{
}

} // verus!
