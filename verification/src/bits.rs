//! Bit-level facts about splitting a 32-bit number into seven-bit groups.

use vstd::prelude::*;

verus! {

pub proof fn lemma_groups_2(value: u32, g0: u32, w: u32)
    by (bit_vector)
    requires
        128 <= value < 16384,
        g0 == (value & 0x7F) | 0x80,
        w == (g0 << 8u32) | (value >> 7u32),
    ensures
        (((w as u16) >> 8u16) as u8) as u32 == (value % 128u32) + 128u32,
        ((w as u16) as u8) as u32 == value / 128u32,
{
}

pub proof fn lemma_groups_3(value: u32, g0: u32, g1: u32, w: u32)
    by (bit_vector)
    requires
        16384 <= value < 2097152,
        g0 == (value & 0x7F) | 0x80,
        g1 == ((value >> 7u32) & 0x7F) | 0x80,
        w == (g0 << 16u32) | (g1 << 8u32) | (value >> 14u32),
    ensures
        ((w >> 16u32) as u8) as u32 == value % 128u32 + 128u32,
        ((w >> 8u32) as u8) as u32 == value / 128u32 % 128u32 + 128u32,
        (w as u8) as u32 == value / 128u32 / 128u32,
{
}

pub proof fn lemma_groups_4(value: u32, g0: u32, g1: u32, g2: u32, w: u32)
    by (bit_vector)
    requires
        2097152 <= value < 268435456,
        g0 == (value & 0x7F) | 0x80,
        g1 == ((value >> 7u32) & 0x7F) | 0x80,
        g2 == ((value >> 14u32) & 0x7F) | 0x80,
        w == (g0 << 24u32) | (g1 << 16u32) | (g2 << 8u32) | (value >> 21u32),
    ensures
        ((w >> 24u32) as u8) as u32 == value % 128u32 + 128u32,
        ((w >> 16u32) as u8) as u32 == value / 128u32 % 128u32 + 128u32,
        ((w >> 8u32) as u8) as u32 == value / 128u32 / 128u32 % 128u32 + 128u32,
        (w as u8) as u32 == value / 128u32 / 128u32 / 128u32,
{
}

pub proof fn lemma_groups_5(value: u32, g0: u32, g1: u32, g2: u32, g3: u32, w: u32)
    by (bit_vector)
    requires
        268435456 <= value,
        g0 == (value & 0x7F) | 0x80,
        g1 == ((value >> 7u32) & 0x7F) | 0x80,
        g2 == ((value >> 14u32) & 0x7F) | 0x80,
        g3 == ((value >> 21u32) & 0x7F) | 0x80,
        w == (g0 << 24u32) | (g1 << 16u32) | (g2 << 8u32) | g3,
    ensures
        ((w >> 24u32) as u8) as u32 == value % 128u32 + 128u32,
        ((w >> 16u32) as u8) as u32 == value / 128u32 % 128u32 + 128u32,
        ((w >> 8u32) as u8) as u32 == value / 128u32 / 128u32 % 128u32 + 128u32,
        (w as u8) as u32 == value / 128u32 / 128u32 / 128u32 % 128u32 + 128u32,
        ((value >> 28u32) as u8) as u32 == value / 128u32 / 128u32 / 128u32 / 128u32,
{
}

/// Which of the five lengths a 32-bit value needs, told by its high bits.
pub proof fn lemma_length_masks(value: u32)
    by (bit_vector)
    ensures
        (value & (0xFFFF_FFFFu32 << 7u32)) == 0 <==> value < 128,
        (value & (0xFFFF_FFFFu32 << 14u32)) == 0 <==> value < 16384,
        (value & (0xFFFF_FFFFu32 << 21u32)) == 0 <==> value < 2097152,
        (value & (0xFFFF_FFFFu32 << 28u32)) == 0 <==> value < 268435456,
{
}

/// How the count of leading zero bits of a nonzero 32-bit value places it
/// among the VarInt length thresholds.
pub proof fn lemma_leading_zeros_thresholds(i: u32, lz: u32)
    by (bit_vector)
    requires
        lz <= 31,
        (i >> ((31u32 - lz) as u32)) & 1u32 != 0u32,
        i >> ((32u32 - lz) as u32) == 0,
    ensures
        i < 128 <==> lz >= 25,
        i < 16384 <==> lz >= 18,
        i < 2097152 <==> lz >= 11,
        i < 268435456 <==> lz >= 4,
{
}

/// The two-byte group word, read as a big-endian number.
pub proof fn lemma_word_2(value: u32, g0: u32, w: u32)
    by (bit_vector)
    requires
        128 <= value < 16384,
        g0 == (value & 0x7F) | 0x80,
        w == (g0 << 8u32) | (value >> 7u32),
    ensures
        w < 65536,
        w / 256u32 % 256u32 == value % 128u32 + 128u32,
        w % 256u32 == value / 128u32,
{
}

/// The three-byte group word, read as a big-endian number.
pub proof fn lemma_word_3(value: u32, g0: u32, g1: u32, w: u32)
    by (bit_vector)
    requires
        16384 <= value < 2097152,
        g0 == (value & 0x7F) | 0x80,
        g1 == ((value >> 7u32) & 0x7F) | 0x80,
        w == (g0 << 16u32) | (g1 << 8u32) | (value >> 14u32),
    ensures
        w < 16777216,
        w / 256u32 / 256u32 % 256u32 == value % 128u32 + 128u32,
        w / 256u32 % 256u32 == value / 128u32 % 128u32 + 128u32,
        w % 256u32 == value / 128u32 / 128u32,
{
}

/// The four-byte group word with a final group, read as a big-endian number.
pub proof fn lemma_word_4(value: u32, g0: u32, g1: u32, g2: u32, w: u32)
    by (bit_vector)
    requires
        2097152 <= value < 268435456,
        g0 == (value & 0x7F) | 0x80,
        g1 == ((value >> 7u32) & 0x7F) | 0x80,
        g2 == ((value >> 14u32) & 0x7F) | 0x80,
        w == (g0 << 24u32) | (g1 << 16u32) | (g2 << 8u32) | (value >> 21u32),
    ensures
        w / 256u32 / 256u32 / 256u32 % 256u32 == value % 128u32 + 128u32,
        w / 256u32 / 256u32 % 256u32 == value / 128u32 % 128u32 + 128u32,
        w / 256u32 % 256u32 == value / 128u32 / 128u32 % 128u32 + 128u32,
        w % 256u32 == value / 128u32 / 128u32 / 128u32,
{
}

/// The four-byte group word of a five-byte VarInt, read as a big-endian
/// number.
pub proof fn lemma_word_5(value: u32, g0: u32, g1: u32, g2: u32, g3: u32, w: u32)
    by (bit_vector)
    requires
        268435456 <= value,
        g0 == (value & 0x7F) | 0x80,
        g1 == ((value >> 7u32) & 0x7F) | 0x80,
        g2 == ((value >> 14u32) & 0x7F) | 0x80,
        g3 == ((value >> 21u32) & 0x7F) | 0x80,
        w == (g0 << 24u32) | (g1 << 16u32) | (g2 << 8u32) | g3,
    ensures
        w / 256u32 / 256u32 / 256u32 % 256u32 == value % 128u32 + 128u32,
        w / 256u32 / 256u32 % 256u32 == value / 128u32 % 128u32 + 128u32,
        w / 256u32 % 256u32 == value / 128u32 / 128u32 % 128u32 + 128u32,
        w % 256u32 == value / 128u32 / 128u32 / 128u32 % 128u32 + 128u32,
        value >> 28u32 == value / 128u32 / 128u32 / 128u32 / 128u32,
{
}

/// The low seven bits of a 32-bit value, with or without the high bit set.
pub proof fn lemma_low_group(v: u32)
    by (bit_vector)
    ensures
        (v & !0x7Fu32) == 0 <==> v < 128,
        v & 0x7Fu32 == v % 128u32,
        (v & 0x7Fu32) | 0x80u32 == v % 128u32 + 128u32,
        v >> 7u32 == v / 128u32,
{
}

/// The low seven bits of a 64-bit value, with or without the high bit set.
pub proof fn lemma_low_group_u64(v: u64)
    by (bit_vector)
    ensures
        (v & !0x7Fu64) == 0 <==> v < 128,
        v & 0x7Fu64 == v % 128u64,
        (v & 0x7Fu64) | 0x80u64 == v % 128u64 + 128u64,
        v >> 7u64 == v / 128u64,
{
}

} // verus!
