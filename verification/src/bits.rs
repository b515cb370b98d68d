//! Fields of a packed 16-bit register.
use vstd::prelude::*;

verus! {

/// The field of `word` that starts at bit `low` and has the bits of `mask`.
pub open spec fn field_of(word: u16, low: u16, mask: u16) -> u16 {
    (word >> low) & mask
}

/// `word` with the field at bit `low` replaced by the bits of `value` that `mask` keeps.
pub open spec fn with_field_of(word: u16, low: u16, mask: u16, value: u16) -> u16 {
    (word & !(mask << low)) | ((value & mask) << low)
}

/// Whether bit `bit` of `word` is set.
pub open spec fn flag_of(word: u16, bit: u16) -> bool {
    (word >> bit) & 1u16 == 1u16
}

/// `word` with bit `bit` set or cleared.
pub open spec fn with_flag_of(word: u16, bit: u16, on: bool) -> u16 {
    if on {
        word | (1u16 << bit)
    } else {
        word & !(1u16 << bit)
    }
}

/// A field `mask` wide at bit `low` lies within the 16 bits of a register.
pub open spec fn field_fits(low: u16, mask: u16) -> bool {
    low < 16 && (mask << low) >> low == mask
}

/// Reads the field at bit `low`.
pub fn field(word: u16, low: u16, mask: u16) -> (value: u16)
    requires
        low < 16,
    ensures
        value == field_of(word, low, mask),
        value <= mask,
{
    let value = (word >> low) & mask;
    assert(((word >> low) & mask) <= mask) by (bit_vector);
    value
}

/// Writes the field at bit `low`, leaving the other bits.
pub fn with_field(word: u16, low: u16, mask: u16, value: u16) -> (out: u16)
    requires
        low < 16,
    ensures
        out == with_field_of(word, low, mask, value),
{
    (word & !(mask << low)) | ((value & mask) << low)
}

/// Reads bit `bit`.
pub fn flag(word: u16, bit: u16) -> (on: bool)
    requires
        bit < 16,
    ensures
        on == flag_of(word, bit),
{
    (word >> bit) & 1u16 == 1u16
}

/// Sets or clears bit `bit`, leaving the other bits.
pub fn with_flag(word: u16, bit: u16, on: bool) -> (out: u16)
    requires
        bit < 16,
    ensures
        out == with_flag_of(word, bit, on),
{
    if on {
        word | (1u16 << bit)
    } else {
        word & !(1u16 << bit)
    }
}

/// A field that was written reads back as what was written, cut to the field's width.
pub proof fn lemma_field_reads_back(word: u16, low: u16, mask: u16, value: u16)
    requires
        field_fits(low, mask),
    ensures
        field_of(with_field_of(word, low, mask, value), low, mask) == value & mask,
{
    assert(((((word & !(mask << low)) | ((value & mask) << low)) >> low) & mask) == value & mask)
        by (bit_vector)
        requires
            low < 16,
            (mask << low) >> low == mask,
    ;
}

/// Writing one field leaves a field that shares no bit with it as it was.
pub proof fn lemma_field_keeps_other(
    word: u16,
    low: u16,
    mask: u16,
    value: u16,
    other_low: u16,
    other_mask: u16,
)
    requires
        low < 16,
        field_fits(other_low, other_mask),
        (mask << low) & (other_mask << other_low) == 0,
    ensures
        field_of(with_field_of(word, low, mask, value), other_low, other_mask) == field_of(
            word,
            other_low,
            other_mask,
        ),
{
    assert(((((word & !(mask << low)) | ((value & mask) << low)) >> other_low) & other_mask) == ((
    word >> other_low) & other_mask)) by (bit_vector)
        requires
            low < 16,
            other_low < 16,
            (mask << low) & (other_mask << other_low) == 0,
            (other_mask << other_low) >> other_low == other_mask,
    ;
}

/// A flag that was written reads back as what was written.
pub proof fn lemma_flag_reads_back(word: u16, bit: u16, on: bool)
    requires
        bit < 16,
    ensures
        flag_of(with_flag_of(word, bit, on), bit) == on,
{
    assert(((word | (1u16 << bit)) >> bit) & 1u16 == 1u16) by (bit_vector)
        requires
            bit < 16,
    ;
    assert(((word & !(1u16 << bit)) >> bit) & 1u16 == 0u16) by (bit_vector)
        requires
            bit < 16,
    ;
}

/// Writing a flag leaves every other bit as it was.
pub proof fn lemma_flag_keeps_other(word: u16, bit: u16, on: bool, other: u16)
    requires
        bit < 16,
        other < 16,
        other != bit,
    ensures
        flag_of(with_flag_of(word, bit, on), other) == flag_of(word, other),
{
    assert(((word | (1u16 << bit)) >> other) & 1u16 == (word >> other) & 1u16) by (bit_vector)
        requires
            bit < 16,
            other < 16,
            other != bit,
    ;
    assert(((word & !(1u16 << bit)) >> other) & 1u16 == (word >> other) & 1u16) by (bit_vector)
        requires
            bit < 16,
            other < 16,
            other != bit,
    ;
}


/// Writing a flag leaves a field that does not hold its bit as it was.
pub proof fn lemma_flag_keeps_field(word: u16, bit: u16, on: bool, low: u16, mask: u16)
    requires
        bit < 16,
        field_fits(low, mask),
        (1u16 << bit) & (mask << low) == 0,
    ensures
        field_of(with_flag_of(word, bit, on), low, mask) == field_of(word, low, mask),
{
    assert(((word | (1u16 << bit)) >> low) & mask == (word >> low) & mask) by (bit_vector)
        requires
            bit < 16,
            low < 16,
            (1u16 << bit) & (mask << low) == 0,
            (mask << low) >> low == mask,
    ;
    assert(((word & !(1u16 << bit)) >> low) & mask == (word >> low) & mask) by (bit_vector)
        requires
            bit < 16,
            low < 16,
            (1u16 << bit) & (mask << low) == 0,
            (mask << low) >> low == mask,
    ;
}

/// Writing a field leaves a flag whose bit it does not hold as it was.
pub proof fn lemma_field_keeps_flag(word: u16, low: u16, mask: u16, value: u16, bit: u16)
    requires
        bit < 16,
        low < 16,
        (1u16 << bit) & (mask << low) == 0,
    ensures
        flag_of(with_field_of(word, low, mask, value), bit) == flag_of(word, bit),
{
    assert((((word & !(mask << low)) | ((value & mask) << low)) >> bit) & 1u16 == (word >> bit)
        & 1u16) by (bit_vector)
        requires
            bit < 16,
            low < 16,
            (1u16 << bit) & (mask << low) == 0,
    ;
}

} // verus!
