//! Register words: single bits and the two-bit fields that a GPIO
//! configuration word holds for each of its sixteen pins.

use vstd::prelude::*;

verus! {

/// Whether bit `position` of `word` is set.
pub open spec fn bit_is_set(word: u32, position: u32) -> bool {
    word & (1u32 << position) != 0
}

/// `word` with bit `position` made equal to `value`.
pub open spec fn with_bit(word: u32, position: u32, value: bool) -> u32 {
    if value {
        word | (1u32 << position)
    } else {
        word & !(1u32 << position)
    }
}

/// The two-bit field that a mode or pull word holds for `pin`.
pub open spec fn pin_field(word: u32, pin: u32) -> u32 {
    (word >> ((2 * pin) as u32)) & 3
}

/// `word` with the two-bit field of `pin` made equal to `value`.
pub open spec fn with_pin_field(word: u32, pin: u32, value: u32) -> u32 {
    (word & !(3u32 << ((2 * pin) as u32))) | ((value & 3) << ((2 * pin) as u32))
}

/// Writing a bit changes that bit and no other.
pub proof fn lemma_with_bit(word: u32, position: u32, value: bool, other: u32)
    requires
        position < 32,
        other < 32,
    ensures
        bit_is_set(with_bit(word, position, value), other) == (if other == position {
            value
        } else {
            bit_is_set(word, other)
        }),
{
    assert(bit_is_set(with_bit(word, position, value), other) == (if other == position {
        value
    } else {
        bit_is_set(word, other)
    })) by (bit_vector)
        requires
            position < 32,
            other < 32,
    ;
}

/// Writing a pin field changes that field and no other.
pub proof fn lemma_with_pin_field(word: u32, pin: u32, value: u32, other: u32)
    requires
        pin < 16,
        other < 16,
        value < 4,
    ensures
        pin_field(with_pin_field(word, pin, value), other) == (if other == pin {
            value
        } else {
            pin_field(word, other)
        }),
{
    assert(pin_field(with_pin_field(word, pin, value), other) == (if other == pin {
        value
    } else {
        pin_field(word, other)
    })) by (bit_vector)
        requires
            pin < 16,
            other < 16,
            value < 4,
    ;
}

/// Reads one bit of a register word.
pub fn test_bit(word: u32, position: u32) -> (set: bool)
    requires
        position < 32,
    ensures
        set == bit_is_set(word, position),
{
    word & (1u32 << position) != 0
}

/// Sets or clears one bit of a register word.
pub fn write_bit(word: u32, position: u32, value: bool) -> (written: u32)
    requires
        position < 32,
    ensures
        written == with_bit(word, position, value),
{
    if value {
        word | (1u32 << position)
    } else {
        word & !(1u32 << position)
    }
}

/// Reads the two-bit field of one pin.
pub fn read_pin_field(word: u32, pin: u32) -> (value: u32)
    requires
        pin < 16,
    ensures
        value == pin_field(word, pin),
        value < 4,
{
    let value = (word >> (2 * pin)) & 3;
    assert((word >> ((2 * pin) as u32)) & 3 < 4) by (bit_vector);
    value
}

/// Writes the two-bit field of one pin.
pub fn write_pin_field(word: u32, pin: u32, value: u32) -> (written: u32)
    requires
        pin < 16,
        value < 4,
    ensures
        written == with_pin_field(word, pin, value),
{
    (word & !(3u32 << (2 * pin))) | ((value & 3) << (2 * pin))
}

} // verus!
