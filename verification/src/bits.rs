//! Arithmetic reading of single bytes.

use vstd::prelude::*;

verus! {

/// The low four bits of a byte.
pub open spec fn low_nibble(byte: u8) -> u8 {
    byte % 16
}

/// The high four bits of a byte, kept in their original positions.
pub open spec fn high_nibble(byte: u8) -> u8 {
    (byte - byte % 16) as u8
}

/// Whether the bit of weight `weight` (a power of two) is set.
pub open spec fn has_bit(byte: u8, weight: u8) -> bool {
    (byte / weight) % 2 == 1
}

/// Masking with `0x0f` keeps the low nibble and masking with `0xf0` the high one.
pub proof fn lemma_nibble_masks(byte: u8)
    ensures
        byte & 0x0f == low_nibble(byte),
        byte & 0xf0 == high_nibble(byte),
{
    assert(byte & 0x0f == byte % 16 && byte & 0xf0 == byte - byte % 16) by (bit_vector);
}

/// Masking with a power of two tests one bit.
pub proof fn lemma_bit_masks(byte: u8)
    ensures
        (byte & 0x01 != 0) == has_bit(byte, 0x01),
        (byte & 0x02 != 0) == has_bit(byte, 0x02),
        (byte & 0x04 != 0) == has_bit(byte, 0x04),
        (byte & 0x08 != 0) == has_bit(byte, 0x08),
        (byte & 0x10 != 0) == has_bit(byte, 0x10),
        (byte & 0x80 != 0) == has_bit(byte, 0x80),
{
    assert((byte & 0x01 != 0) == ((byte / 0x01) % 2 == 1)) by (bit_vector);
    assert((byte & 0x02 != 0) == ((byte / 0x02) % 2 == 1)) by (bit_vector);
    assert((byte & 0x04 != 0) == ((byte / 0x04) % 2 == 1)) by (bit_vector);
    assert((byte & 0x08 != 0) == ((byte / 0x08) % 2 == 1)) by (bit_vector);
    assert((byte & 0x10 != 0) == ((byte / 0x10) % 2 == 1)) by (bit_vector);
    assert((byte & 0x80 != 0) == ((byte / 0x80) % 2 == 1)) by (bit_vector);
}

/// The response flag lies in the high nibble.
pub proof fn lemma_high_nibble_keeps_response_flag(byte: u8)
    ensures
        has_bit(high_nibble(byte), 0x10) == has_bit(byte, 0x10),
{
    assert(((byte - byte % 16) as u8 / 0x10) % 2 == (byte / 0x10) % 2) by (bit_vector);
}

} // verus!
