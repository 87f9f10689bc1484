//! The arithmetic of a field within its register: the mask of a span of
//! bits, and what reading, writing, raising and clearing do to the storage.

use vstd::prelude::*;

verus! {

/// The number with its lowest `bits` bits set: `(1 << bits) - 1`.
pub open spec fn low_ones(bits: u32) -> u32 {
    if bits >= 32 {
        0xffff_ffffu32
    } else {
        ((1u32 << bits) - 1) as u32
    }
}

/// The mask of the field of `bits` bits at `offset`: `((1 << bits) - 1) <<
/// offset`.
pub open spec fn field_mask(offset: u32, bits: u32) -> u32 {
    low_ones(bits) << offset
}

/// Whether a register can be `base_bits` wide.
pub open spec fn valid_base(base_bits: u32) -> bool {
    base_bits == 8 || base_bits == 16 || base_bits == 32
}

/// Whether a field of `bits` bits at `offset` lies within a register of
/// `base_bits` bits.
pub open spec fn valid_span(offset: u32, bits: u32, base_bits: u32) -> bool {
    1 <= bits && offset + bits <= base_bits && base_bits <= 32
}

/// What a get reads from the storage: `(cell & mask) >> offset`.
pub open spec fn read_bits(cell: u32, offset: u32, bits: u32) -> u32 {
    (cell & field_mask(offset, bits)) >> offset
}

/// What a set leaves in the storage: `(cell & !mask) | (raw << offset)`, as
/// far as the register is wide.
pub open spec fn write_bits(cell: u32, raw: u32, offset: u32, bits: u32, base_bits: u32) -> u32 {
    (cell & !field_mask(offset, bits)) | ((raw << offset) & low_ones(base_bits))
}

/// What a set without a value leaves in the storage: `cell | mask`.
pub open spec fn raise_bits(cell: u32, offset: u32, bits: u32) -> u32 {
    cell | field_mask(offset, bits)
}

/// What a clear leaves in the storage: `cell & !mask`.
pub open spec fn clear_bits(cell: u32, offset: u32, bits: u32) -> u32 {
    cell & !field_mask(offset, bits)
}

/// Computes the mask of a field.
pub fn mask_of(offset: u32, bits: u32) -> (mask: u32)
    requires
        1 <= bits,
        offset + bits <= 32,
    ensures
        mask == field_mask(offset, bits),
{
    let ones: u32 = u32::MAX >> (32 - bits);
    assert(0xffff_ffffu32 >> ((32 - bits) as u32) == low_ones(bits)) by (bit_vector)
        requires
            1 <= bits <= 32,
    ;
    ones << offset
}

/// Non-overlap: two fields of which one ends before the other starts share
/// no bit.
pub proof fn law_masks_disjoint(offset: u32, bits: u32, other_offset: u32, other_bits: u32)
    by (bit_vector)
    requires
        offset + bits <= other_offset,
        other_offset + other_bits <= 32,
    ensures
        field_mask(offset, bits) & field_mask(other_offset, other_bits) == 0,
{
}

/// What is read from a field fits the field.
pub proof fn law_read_fits(cell: u32, offset: u32, bits: u32, base_bits: u32)
    by (bit_vector)
    requires
        valid_span(offset, bits, base_bits),
    ensures
        read_bits(cell, offset, bits) <= low_ones(bits),
{
}

/// Read after write: a get after a set gives the bits that were set, where
/// they fit the field.
pub proof fn law_read_after_write(cell: u32, raw: u32, offset: u32, bits: u32, base_bits: u32)
    by (bit_vector)
    requires
        valid_span(offset, bits, base_bits),
        raw <= low_ones(bits),
    ensures
        read_bits(write_bits(cell, raw, offset, bits, base_bits), offset, bits) == raw,
{
}

/// A set of bits that fit the field changes no bit outside the field.
pub proof fn law_write_keeps_rest(cell: u32, raw: u32, offset: u32, bits: u32, base_bits: u32)
    by (bit_vector)
    requires
        valid_span(offset, bits, base_bits),
        raw <= low_ones(bits),
    ensures
        write_bits(cell, raw, offset, bits, base_bits) & !field_mask(offset, bits) == cell & !field_mask(
            offset,
            bits,
        ),
{
}

/// Clear: after a clear, a get of the field gives zero.
pub proof fn law_read_after_clear(cell: u32, offset: u32, bits: u32, base_bits: u32)
    by (bit_vector)
    requires
        valid_span(offset, bits, base_bits),
    ensures
        read_bits(clear_bits(cell, offset, bits), offset, bits) == 0,
{
}

/// A clear changes no bit outside the field.
pub proof fn law_clear_keeps_rest(cell: u32, offset: u32, bits: u32)
    by (bit_vector)
    ensures
        clear_bits(cell, offset, bits) & !field_mask(offset, bits) == cell & !field_mask(offset, bits),
{
}

/// Set flag: after a set without a value, every bit of the field is one.
pub proof fn law_read_after_raise(cell: u32, offset: u32, bits: u32, base_bits: u32)
    by (bit_vector)
    requires
        valid_span(offset, bits, base_bits),
    ensures
        read_bits(raise_bits(cell, offset, bits), offset, bits) == low_ones(bits),
        raise_bits(cell, offset, bits) & field_mask(offset, bits) == field_mask(offset, bits),
{
}

/// A set without a value changes no bit outside the field.
pub proof fn law_raise_keeps_rest(cell: u32, offset: u32, bits: u32)
    by (bit_vector)
    ensures
        raise_bits(cell, offset, bits) & !field_mask(offset, bits) == cell & !field_mask(offset, bits),
{
}

/// What a field holds depends on the bits under its mask alone: two
/// storages that agree outside another field, which shares no bit with this
/// one, give the same read.
pub proof fn law_read_ignores_rest(
    cell: u32,
    next: u32,
    offset: u32,
    bits: u32,
    other_offset: u32,
    other_bits: u32,
)
    by (bit_vector)
    requires
        next & !field_mask(other_offset, other_bits) == cell & !field_mask(other_offset, other_bits),
        field_mask(offset, bits) & field_mask(other_offset, other_bits) == 0,
    ensures
        read_bits(next, offset, bits) == read_bits(cell, offset, bits),
{
}

} // verus!
