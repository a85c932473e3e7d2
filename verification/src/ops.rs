//! Bit-field arithmetic on 32-bit register values.
//!
//! A field is named by the positions of its lowest and highest bit, both
//! inclusive, with bit 0 the least significant.

use vstd::prelude::*;
use vstd::arithmetic::div_mod::{lemma_fundamental_div_mod_converse, lemma_small_mod};
use vstd::arithmetic::power2::{lemma2_to64, lemma_pow2_adds, lemma_pow2_pos, pow2};
use vstd::bits::{lemma_u32_low_bits_mask_is_mod, lemma_u32_shr_is_div, low_bits_mask};

verus! {

/// The word that has exactly the bits `start..=end` set.
pub open spec fn spec_mask_u32(start: u32, end: u32) -> u32
    recommends
        start <= end < 32,
{
    (u32::MAX >> ((31 - (end - start)) as u32)) << start
}

/// The largest value that fits in the field `start..=end`.
pub open spec fn spec_field_max(start: u32, end: u32) -> u32
    recommends
        start <= end < 32,
{
    u32::MAX >> ((31 - (end - start)) as u32)
}

/// Whether bit `bit` of `value` is set.
pub open spec fn spec_get_bool_u32(value: u32, bit: u32) -> bool
    recommends
        bit < 32,
{
    (value >> bit) & 1 == 1
}

/// `value` with bit `bit` made equal to `field_value`.
pub open spec fn spec_set_bool_u32(value: u32, bit: u32, field_value: bool) -> u32
    recommends
        bit < 32,
{
    if field_value {
        value | (1u32 << bit)
    } else {
        value & !(1u32 << bit)
    }
}

/// The field `start..=end` of `value`, moved down to bit 0.
pub open spec fn spec_get_u32(value: u32, start: u32, end: u32) -> u32
    recommends
        start <= end < 32,
{
    (value & spec_mask_u32(start, end)) >> start
}

/// `value` with the field `start..=end` replaced by the low bits of
/// `field_value`; bits of `field_value` that do not fit are dropped.
pub open spec fn spec_set_u32(value: u32, start: u32, end: u32, field_value: u32) -> u32
    recommends
        start <= end < 32,
{
    (value & !spec_mask_u32(start, end)) | ((field_value << start) & spec_mask_u32(start, end))
}

/// The bits of `value` selected by `mask`.
pub open spec fn spec_get_masked_u32(value: u32, mask: u32) -> u32 {
    value & mask
}

/// `value` with the bits selected by `mask` taken from `field_value`.
pub open spec fn spec_set_masked_u32(value: u32, mask: u32, field_value: u32) -> u32 {
    (value & !mask) | (field_value & mask)
}

/// Extract the bits of `value` that `mask` selects, each at its position.
#[verifier::when_used_as_spec(spec_get_masked_u32)]
pub fn get_masked_u32(value: u32, mask: u32) -> (field: u32)
    ensures
        field == spec_get_masked_u32(value, mask),
{
    value & mask
}

/// Replace the bits of `value` that `mask` selects by those of
/// `field_value`.
#[verifier::when_used_as_spec(spec_set_masked_u32)]
pub fn set_masked_u32(value: u32, mask: u32, field_value: u32) -> (updated: u32)
    ensures
        updated == spec_set_masked_u32(value, mask, field_value),
{
    (value & !mask) | (field_value & mask)
}

/// The mask of the field from bit `start` to bit `end`.
#[verifier::when_used_as_spec(spec_mask_u32)]
pub fn mask_u32(start: u32, end: u32) -> (mask: u32)
    requires
        start <= end < 32,
    ensures
        mask == spec_mask_u32(start, end),
{
    (u32::MAX >> (31 - (end - start))) << start
}

/// Extract bit `bit` of `value`.
#[verifier::when_used_as_spec(spec_get_bool_u32)]
pub fn get_bool_u32(value: u32, bit: u32) -> (set: bool)
    requires
        bit < 32,
    ensures
        set == spec_get_bool_u32(value, bit),
{
    (value >> bit) & 1 == 1
}

/// Set or clear bit `bit` of `value`.
#[verifier::when_used_as_spec(spec_set_bool_u32)]
pub fn set_bool_u32(value: u32, bit: u32, field_value: bool) -> (updated: u32)
    requires
        bit < 32,
    ensures
        updated == spec_set_bool_u32(value, bit, field_value),
{
    if field_value {
        value | (1u32 << bit)
    } else {
        value & !(1u32 << bit)
    }
}

/// Extract the field from bit `start` to bit `end` of `value`.
#[verifier::when_used_as_spec(spec_get_u32)]
pub fn get_u32(value: u32, start: u32, end: u32) -> (field: u32)
    requires
        start <= end < 32,
    ensures
        field == spec_get_u32(value, start, end),
{
    (value & mask_u32(start, end)) >> start
}

/// Replace the field from bit `start` to bit `end` of `value` by
/// `field_value`, cut to the width of the field.
#[verifier::when_used_as_spec(spec_set_u32)]
pub fn set_u32(value: u32, start: u32, end: u32, field_value: u32) -> (updated: u32)
    requires
        start <= end < 32,
    ensures
        updated == spec_set_u32(value, start, end, field_value),
{
    let mask: u32 = mask_u32(start, end);
    (value & !mask) | ((field_value << start) & mask)
}

/// What is read from a field is what was last put there, cut to the field's
/// width.
pub proof fn lemma_get_after_set(value: u32, start: u32, end: u32, field_value: u32)
    by (bit_vector)
    requires
        start <= end < 32,
    ensures
        spec_get_u32(spec_set_u32(value, start, end, field_value), start, end) == field_value
            & spec_field_max(start, end),
{
}

/// Writing one field leaves every field that shares no bit with it as it was.
pub proof fn lemma_get_after_set_other(
    value: u32,
    start: u32,
    end: u32,
    field_value: u32,
    other_start: u32,
    other_end: u32,
)
    by (bit_vector)
    requires
        start <= end < 32,
        other_start <= other_end < 32,
        other_end < start || end < other_start,
    ensures
        spec_get_u32(spec_set_u32(value, start, end, field_value), other_start, other_end)
            == spec_get_u32(value, other_start, other_end),
{
}

/// A field never holds more than its width allows.
pub proof fn lemma_get_bounded(value: u32, start: u32, end: u32)
    by (bit_vector)
    requires
        start <= end < 32,
    ensures
        spec_get_u32(value, start, end) <= spec_field_max(start, end),
{
}

/// A single bit is the field that starts and ends at that bit.
pub proof fn lemma_bool_is_field(value: u32, bit: u32, field_value: bool)
    by (bit_vector)
    requires
        bit < 32,
    ensures
        spec_get_bool_u32(value, bit) == (spec_get_u32(value, bit, bit) == 1),
        spec_set_bool_u32(value, bit, field_value) == spec_set_u32(
            value,
            bit,
            bit,
            if field_value { 1u32 } else { 0u32 },
        ),
{
}

/// The largest value of a field, by the field's width, for the widths of one
/// to eight bits.
pub proof fn lemma_field_max_values(start: u32, end: u32)
    by (bit_vector)
    requires
        start <= end < 32,
    ensures
        end - start == 0 ==> spec_field_max(start, end) == 0x01,
        end - start == 1 ==> spec_field_max(start, end) == 0x03,
        end - start == 2 ==> spec_field_max(start, end) == 0x07,
        end - start == 3 ==> spec_field_max(start, end) == 0x0f,
        end - start == 4 ==> spec_field_max(start, end) == 0x1f,
        end - start == 5 ==> spec_field_max(start, end) == 0x3f,
        end - start == 6 ==> spec_field_max(start, end) == 0x7f,
        end - start == 7 ==> spec_field_max(start, end) == 0xff,
{
}

/// Cutting a value to a field's width keeps its remainder modulo the number
/// of values that the field can hold, here for the widths of one to eight
/// bits; a value that fits is kept whole.
pub proof fn lemma_cut_to_field(field_value: u32, start: u32, end: u32)
    by (bit_vector)
    requires
        start <= end < 32,
    ensures
        end - start == 0 ==> field_value & spec_field_max(start, end) == field_value % 2,
        end - start == 1 ==> field_value & spec_field_max(start, end) == field_value % 4,
        end - start == 2 ==> field_value & spec_field_max(start, end) == field_value % 8,
        end - start == 3 ==> field_value & spec_field_max(start, end) == field_value % 16,
        end - start == 4 ==> field_value & spec_field_max(start, end) == field_value % 32,
        end - start == 5 ==> field_value & spec_field_max(start, end) == field_value % 64,
        end - start == 6 ==> field_value & spec_field_max(start, end) == field_value % 128,
        end - start == 7 ==> field_value & spec_field_max(start, end) == field_value % 256,
        field_value <= spec_field_max(start, end) ==> field_value & spec_field_max(start, end)
            == field_value,
{
}

/// The bits that a mask selects are those last put there through the mask.
pub proof fn lemma_masked_get_after_set(value: u32, mask: u32, field_value: u32)
    by (bit_vector)
    ensures
        spec_get_masked_u32(spec_set_masked_u32(value, mask, field_value), mask) == field_value
            & mask,
{
}

/// Writing through the mask of the field `mask_start..=mask_end` leaves every
/// field that shares no bit with it as it was, and writing such a field
/// leaves the masked bits as they were.
pub proof fn lemma_masked_frame(
    value: u32,
    mask_start: u32,
    mask_end: u32,
    field_value: u32,
    start: u32,
    end: u32,
)
    by (bit_vector)
    requires
        mask_start <= mask_end < 32,
        start <= end < 32,
        mask_end < start || end < mask_start,
    ensures
        spec_get_u32(
            spec_set_masked_u32(value, spec_mask_u32(mask_start, mask_end), field_value),
            start,
            end,
        ) == spec_get_u32(value, start, end),
        spec_get_masked_u32(
            spec_set_u32(value, start, end, field_value),
            spec_mask_u32(mask_start, mask_end),
        ) == spec_get_masked_u32(value, spec_mask_u32(mask_start, mask_end)),
{
}

/// A bit reads as it was last set.
pub proof fn lemma_bool_after_set(value: u32, bit: u32, field_value: bool)
    by (bit_vector)
    requires
        bit < 32,
    ensures
        spec_get_bool_u32(spec_set_bool_u32(value, bit, field_value), bit) == field_value,
{
}

/// Writing a bit leaves the field `start..=end` as it was when the bit lies
/// outside the field, and writing the field leaves the bit as it was.
pub proof fn lemma_bool_frame(value: u32, bit: u32, start: u32, end: u32, field_value: u32)
    requires
        bit < 32,
        start <= end < 32,
        bit < start || end < bit,
    ensures
        forall|b: bool|
            spec_get_u32(#[trigger] spec_set_bool_u32(value, bit, b), start, end) == spec_get_u32(
                value,
                start,
                end,
            ),
        spec_get_bool_u32(spec_set_u32(value, start, end, field_value), bit) == spec_get_bool_u32(
            value,
            bit,
        ),
{
    assert forall|b: bool|
        spec_get_u32(#[trigger] spec_set_bool_u32(value, bit, b), start, end) == spec_get_u32(
            value,
            start,
            end,
        ) by {
        lemma_bool_is_field(value, bit, b);
        lemma_get_after_set_other(value, bit, bit, if b { 1u32 } else { 0u32 }, start, end);
    }
    let updated = spec_set_u32(value, start, end, field_value);
    lemma_bool_is_field(updated, bit, true);
    lemma_bool_is_field(value, bit, true);
    lemma_get_after_set_other(value, start, end, field_value, bit, bit);
}

/// Writing one bit leaves every other bit as it was.
pub proof fn lemma_bool_frame_bool(value: u32, bit: u32, other: u32)
    requires
        bit < 32,
        other < 32,
        bit != other,
    ensures
        forall|b: bool|
            spec_get_bool_u32(#[trigger] spec_set_bool_u32(value, bit, b), other)
                == spec_get_bool_u32(value, other),
{
    assert forall|b: bool|
        spec_get_bool_u32(#[trigger] spec_set_bool_u32(value, bit, b), other) == spec_get_bool_u32(
            value,
            other,
        ) by {
        lemma_bool_is_field(value, bit, b);
        lemma_bool_frame(value, other, bit, bit, if b { 1u32 } else { 0u32 });
    }
}

/// Writing through the mask of the field `mask_start..=mask_end` leaves a
/// bit outside that field as it was, and writing the bit leaves the masked
/// bits as they were.
pub proof fn lemma_masked_frame_bool(
    value: u32,
    mask_start: u32,
    mask_end: u32,
    field_value: u32,
    bit: u32,
)
    requires
        mask_start <= mask_end < 32,
        bit < 32,
        bit < mask_start || mask_end < bit,
    ensures
        spec_get_bool_u32(
            spec_set_masked_u32(value, spec_mask_u32(mask_start, mask_end), field_value),
            bit,
        ) == spec_get_bool_u32(value, bit),
        forall|b: bool|
            spec_get_masked_u32(
                #[trigger] spec_set_bool_u32(value, bit, b),
                spec_mask_u32(mask_start, mask_end),
            ) == spec_get_masked_u32(value, spec_mask_u32(mask_start, mask_end)),
{
    let mask = spec_mask_u32(mask_start, mask_end);
    lemma_bool_is_field(value, bit, true);
    lemma_bool_is_field(spec_set_masked_u32(value, mask, field_value), bit, true);
    lemma_masked_frame(value, mask_start, mask_end, field_value, bit, bit);
    assert forall|b: bool|
        spec_get_masked_u32(#[trigger] spec_set_bool_u32(value, bit, b), mask)
            == spec_get_masked_u32(value, mask) by {
        lemma_bool_is_field(value, bit, b);
        lemma_masked_frame(value, mask_start, mask_end, if b { 1u32 } else { 0u32 }, bit, bit);
    }
}

/// Every field and every bit of the word zero is zero.
pub proof fn lemma_zero_fields(start: u32, end: u32)
    by (bit_vector)
    requires
        start <= end < 32,
    ensures
        spec_get_u32(0, start, end) == 0,
        !spec_get_bool_u32(0, start),
{
}

/// No mask selects a bit of the word zero.
pub proof fn lemma_masked_zero(mask: u32)
    by (bit_vector)
    ensures
        spec_get_masked_u32(0, mask) == 0,
{
}

/// In numbers, the field `start..=end` of a value is the value divided by
/// `2^start`, modulo `2^width`, where the width is the number of bits of the
/// field.
pub proof fn lemma_get_is_div_mod(value: u32, start: u32, end: u32)
    requires
        start <= end < 32,
    ensures
        spec_get_u32(value, start, end) == (value as nat / pow2(start as nat)) % pow2(
            (end - start + 1) as nat,
        ),
{
    let width = (end - start + 1) as nat;
    let shifted: u32 = value >> start;
    let max = spec_field_max(start, end);
    assert(spec_get_u32(value, start, end) == shifted & max) by (bit_vector)
        requires
            start <= end < 32,
            shifted == value >> start,
            max == spec_field_max(start, end),
    ;
    lemma_u32_shr_is_div(value, start);
    lemma2_to64();
    lemma_pow2_pos(width);
    if width == 32 {
        assert(shifted & max == shifted) by (bit_vector)
            requires
                start == 0,
                end == 31,
                max == spec_field_max(start, end),
        ;
        lemma_small_mod(shifted as nat, pow2(32));
    } else {
        lemma_field_max_is_low_bits_mask(start, end);
        lemma_u32_low_bits_mask_is_mod(shifted, width);
    }
}

/// The largest value of a field is one less than `2^width`.
pub proof fn lemma_field_max_is_low_bits_mask(start: u32, end: u32)
    requires
        start <= end < 32,
    ensures
        spec_field_max(start, end) == low_bits_mask((end - start + 1) as nat),
{
    let width = (end - start + 1) as nat;
    let rest = (32 - width) as nat;
    lemma_u32_shr_is_div(u32::MAX, (31 - (end - start)) as u32);
    lemma2_to64();
    lemma_pow2_adds(width, rest);
    lemma_pow2_pos(width);
    lemma_pow2_pos(rest);
    let high = pow2(width) as int;
    let low = pow2(rest) as int;
    assert(u32::MAX == low * (high - 1) + (low - 1)) by (nonlinear_arith)
        requires
            high * low == 0x1_0000_0000,
    ;
    lemma_fundamental_div_mod_converse(u32::MAX as int, low, high - 1, low - 1);
}

} // verus!
