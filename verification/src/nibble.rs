//! Four-bit values. Every register, memory cell and ALU operand of the machine
//! holds a nibble: a number from 0 to 15, obtained from any wider value by
//! keeping its four low bits.

use vstd::prelude::*;

verus! {

/// The four low bits of `value`.
pub open spec fn low_nibble(value: u8) -> u8 {
    value & 0x0F
}

/// Whether `value` fits in four bits.
pub open spec fn is_nibble(value: u8) -> bool {
    value <= 15
}

/// Masking keeps the remainder modulo 16, and so always yields a nibble.
pub proof fn lemma_low_nibble_is_remainder(value: u8)
    ensures
        low_nibble(value) == value % 16,
        is_nibble(low_nibble(value)),
{
    assert(value & 0x0F == value % 16) by (bit_vector);
}

/// Masking leaves a nibble as it is.
pub proof fn lemma_low_nibble_of_nibble(value: u8)
    requires
        is_nibble(value),
    ensures
        low_nibble(value) == value,
{
    assert(value <= 15 ==> value & 0x0F == value) by (bit_vector);
}

/// Masking is idempotent: masking a masked value changes nothing.
pub proof fn lemma_mask_idempotent(value: u8)
    ensures
        low_nibble(low_nibble(value)) == low_nibble(value),
{
    assert((value & 0x0F) & 0x0F == value & 0x0F) by (bit_vector);
}

/// Reduces `value` to four bits.
pub fn mask(value: u8) -> (masked: u8)
    ensures
        masked == low_nibble(value),
        masked == value % 16,
        is_nibble(masked),
{
    proof {
        lemma_low_nibble_is_remainder(value);
    }
    value & 0x0F
}

} // verus!
