//! Bit field access through the `bit_field` crate.
use bit_field::BitField;
use vstd::prelude::*;

verus! {

/// What `BitField::set_bits` makes of a `u32`: the bits `start..end` of
/// `word` replaced by `value`, computed as the crate does.
pub open spec fn spec_set_bits_u32(word: u32, start: u32, end: u32, value: u32) -> u32 {
    let mask = !(((!0u32 << (32 - end) as u32) >> (32 - end) as u32) >> start << start);
    (word & mask) | (value << start)
}

/// What `BitField::set_bit` makes of a `u32`.
pub open spec fn spec_set_bit_u32(word: u32, bit: u32, value: bool) -> u32 {
    if value {
        word | (1u32 << bit)
    } else {
        word & !(1u32 << bit)
    }
}

/// What `BitField::get_bits` reads from a `u16`: bits `start..end`, computed
/// as the crate does.
pub open spec fn spec_get_bits_u16(word: u16, start: u16, end: u16) -> u16 {
    (word << (16 - end) as u16) >> (16 - end) as u16 >> start
}

/// What `BitField::set_bits` makes of a `u16`.
pub open spec fn spec_set_bits_u16(word: u16, start: u16, end: u16, value: u16) -> u16 {
    let mask = !(((!0u16 << (16 - end) as u16) >> (16 - end) as u16) >> start << start);
    (word & mask) | (value << start)
}

/// What `BitField::set_bit` makes of a `u16`.
pub open spec fn spec_set_bit_u16(word: u16, bit: u16, value: bool) -> u16 {
    if value {
        word | (1u16 << bit)
    } else {
        word & !(1u16 << bit)
    }
}

/// Calls `BitField::set_bits(start..end, value)` of `bit_field` on a `u32`;
/// the crate asserts a non-empty range inside the word and a value that fits.
#[verifier::external_body]
pub(crate) fn set_bits_u32(word: u32, start: u32, end: u32, value: u32) -> (r: u32)
    requires
        start < end <= 32,
        (value << (32 - (end - start)) as u32) >> (32 - (end - start)) as u32 == value,
    ensures
        r == spec_set_bits_u32(word, start, end, value),
{
    let mut w = word;
    w.set_bits((start as usize)..(end as usize), value);
    w
}

/// Calls `BitField::set_bit(bit, value)` of `bit_field` on a `u32`.
#[verifier::external_body]
pub(crate) fn set_bit_u32(word: u32, bit: u32, value: bool) -> (r: u32)
    requires
        bit < 32,
    ensures
        r == spec_set_bit_u32(word, bit, value),
{
    let mut w = word;
    w.set_bit(bit as usize, value);
    w
}

/// Calls `BitField::get_bits(start..end)` of `bit_field` on a `u16`.
#[verifier::external_body]
pub(crate) fn get_bits_u16(word: u16, start: u16, end: u16) -> (r: u16)
    requires
        start < end <= 16,
    ensures
        r == spec_get_bits_u16(word, start, end),
{
    word.get_bits((start as usize)..(end as usize))
}

/// Calls `BitField::get_bit(bit)` of `bit_field` on a `u16`.
#[verifier::external_body]
pub(crate) fn get_bit_u16(word: u16, bit: u16) -> (r: bool)
    requires
        bit < 16,
    ensures
        r == ((word & (1u16 << bit)) != 0),
{
    word.get_bit(bit as usize)
}

/// Calls `BitField::set_bits(start..end, value)` of `bit_field` on a `u16`;
/// the crate asserts a non-empty range inside the word and a value that fits.
#[verifier::external_body]
pub(crate) fn set_bits_u16(word: u16, start: u16, end: u16, value: u16) -> (r: u16)
    requires
        start < end <= 16,
        (value << (16 - (end - start)) as u16) >> (16 - (end - start)) as u16 == value,
    ensures
        r == spec_set_bits_u16(word, start, end, value),
{
    let mut w = word;
    w.set_bits((start as usize)..(end as usize), value);
    w
}

/// Calls `BitField::set_bit(bit, value)` of `bit_field` on a `u16`.
#[verifier::external_body]
pub(crate) fn set_bit_u16(word: u16, bit: u16, value: bool) -> (r: u16)
    requires
        bit < 16,
    ensures
        r == spec_set_bit_u16(word, bit, value),
{
    let mut w = word;
    w.set_bit(bit as usize, value);
    w
}

} // verus!
