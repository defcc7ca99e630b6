//! Mask and shift arithmetic over the backing integer.
//!
//! The storage of every bitfield is modelled as a `u128` whose bits above the backing
//! width are zero. A field is a run of `bits` bits that starts at bit `offset`.

use vstd::prelude::*;

verus! {

/// The value with the low `bits` bits set.
pub open spec fn mask(bits: u8) -> u128 {
    if bits == 0 {
        0
    } else if bits >= 128 {
        u128::MAX
    } else {
        u128::MAX >> ((128 - bits) as u128)
    }
}

/// The mask of a field in place: `bits` bits set, from bit `offset` up.
pub open spec fn place(offset: u8, bits: u8) -> u128 {
    mask(bits) << (offset as u128)
}

/// The `bits` bits of `storage` that start at bit `offset`.
pub open spec fn extract(storage: u128, offset: u8, bits: u8) -> u128 {
    (storage >> (offset as u128)) & mask(bits)
}

/// `storage` with the `bits` bits that start at bit `offset` replaced by the low bits of
/// `value`.
pub open spec fn insert(storage: u128, offset: u8, bits: u8, value: u128) -> u128 {
    (storage & !(mask(bits) << (offset as u128))) | ((value & mask(bits)) << (offset as u128))
}

/// Whether a field of `bits` bits at `offset` lies inside 128 bits and is not empty.
pub open spec fn in_range(offset: u8, bits: u8) -> bool {
    1 <= bits && offset + bits <= 128
}

/// Computes [`mask`].
pub fn field_mask(bits: u8) -> (m: u128)
    ensures
        m == mask(bits),
{
    if bits == 0 {
        0
    } else if bits >= 128 {
        u128::MAX
    } else {
        u128::MAX >> ((128 - bits) as u128)
    }
}

/// Computes [`extract`].
pub fn extract_bits(storage: u128, offset: u8, bits: u8) -> (r: u128)
    requires
        in_range(offset, bits),
    ensures
        r == extract(storage, offset, bits),
{
    (storage >> (offset as u128)) & field_mask(bits)
}

/// Computes [`insert`].
pub fn insert_bits(storage: u128, offset: u8, bits: u8, value: u128) -> (r: u128)
    requires
        in_range(offset, bits),
    ensures
        r == insert(storage, offset, bits, value),
{
    let m = field_mask(bits);
    (storage & !(m << (offset as u128))) | ((value & m) << (offset as u128))
}

#[verifier::rlimit(100)]
proof fn lemma_shift_then_mask(x: u128, o: u128, m: u128)
    by (bit_vector)
    requires
        o < 128,
        (m << o) >> o == m,
    ensures
        (x >> o) & m == (x & (m << o)) >> o,
{
}

proof fn lemma_shifted_inside(v: u128, o: u128, m: u128)
    by (bit_vector)
    requires
        o < 128,
    ensures
        ((v & m) << o) & (m << o) == (v & m) << o,
{
}

proof fn lemma_shift_back(v: u128, o: u128, m: u128)
    by (bit_vector)
    requires
        o < 128,
        (m << o) >> o == m,
    ensures
        ((v & m) << o) >> o == v & m,
{
}

proof fn lemma_shift_injective(x: u128, y: u128, o: u128, m: u128)
    by (bit_vector)
    requires
        o < 128,
        (x & (m << o)) >> o == (y & (m << o)) >> o,
    ensures
        x & (m << o) == y & (m << o),
{
}

proof fn lemma_replace_outside(s: u128, new: u128, inside: u128, outside: u128)
    by (bit_vector)
    requires
        inside & outside == 0,
        new & inside == new,
    ensures
        ((s & !inside) | new) & outside == s & outside,
{
}

proof fn lemma_replace_inside(s: u128, new: u128, inside: u128)
    by (bit_vector)
    requires
        new & inside == new,
    ensures
        ((s & !inside) | new) & inside == new,
{
}

/// Two values that agree under two masks agree under the union of the masks.
pub proof fn lemma_agree_under_both(a: u128, b: u128, x: u128, y: u128)
    by (bit_vector)
    requires
        a & x == b & x,
        a & y == b & y,
    ensures
        a & (x | y) == b & (x | y),
{
}

proof fn lemma_mask_shift(offset: u8, bits: u8)
    by (bit_vector)
    requires
        1 <= bits,
        offset + bits <= 128,
    ensures
        (mask(bits) << (offset as u128)) >> (offset as u128) == mask(bits),
        (offset as u128) < 128,
{
}

/// The masks of two fields, the first of which ends where or before the second begins, have
/// no bit in common.
pub proof fn lemma_place_disjoint(o1: u8, b1: u8, o2: u8, b2: u8)
    by (bit_vector)
    requires
        1 <= b1,
        1 <= b2,
        o1 + b1 <= o2,
        o2 + b2 <= 128,
    ensures
        place(o1, b1) & place(o2, b2) == 0,
        place(o2, b2) & place(o1, b1) == 0,
{
}

/// The mask of a field that lies below bit `width` has no bit in common with the bits from
/// `width` up.
pub proof fn lemma_place_below(offset: u8, bits: u8, width: u8)
    by (bit_vector)
    requires
        1 <= bits,
        offset + bits <= width,
        width <= 128,
    ensures
        place(offset, bits) & !mask(width) == 0,
{
}

/// A value has no bit from `width` up exactly if it is at most `mask(width)`.
pub proof fn lemma_below_mask(a: u128, width: u8)
    by (bit_vector)
    requires
        1 <= width <= 128,
    ensures
        (a & !mask(width) == 0) <==> a <= mask(width),
        a & !mask(width) == 0 ==> a & mask(width) == a,
{
}

/// A field that lies just above the low `low` bits completes them to the low `end` bits.
pub proof fn lemma_cover_up(low: u8, bits: u8, end: u8)
    by (bit_vector)
    requires
        1 <= bits,
        end == low + bits,
        end <= 128,
    ensures
        mask(low) | place(low, bits) == mask(end),
{
}

/// A field completes the bits above it, up to bit `width`, to the bits from its own offset
/// up to bit `width`.
#[verifier::rlimit(100)]
pub proof fn lemma_cover_down(width: u8, offset: u8, bits: u8, end: u8)
    by (bit_vector)
    requires
        1 <= bits,
        end == offset + bits,
        end <= width,
        width <= 128,
    ensures
        (mask(width) & !mask(end)) | place(offset, bits) == mask(width) & !mask(offset),
{
}

/// What is read from a field fits into the field.
pub proof fn lemma_extract_masked(storage: u128, offset: u8, bits: u8)
    by (bit_vector)
    requires
        offset < 128,
    ensures
        extract(storage, offset, bits) & mask(bits) == extract(storage, offset, bits),
        extract(storage, offset, bits) <= mask(bits),
{
}

/// The low bits of a value fit into as many bits, and are the value where the value fits.
pub proof fn lemma_masked_fits(x: u128, bits: u8)
    by (bit_vector)
    ensures
        x & mask(bits) <= mask(bits),
        x <= mask(bits) ==> x & mask(bits) == x,
{
}

/// Zero has no bit.
pub proof fn lemma_zero_masked(a: u128)
    by (bit_vector)
    ensures
        0u128 & a == 0,
        a & 0u128 == 0,
{
}

/// A field can be read by masking it in place first.
pub proof fn lemma_extract_in_place(storage: u128, offset: u8, bits: u8)
    requires
        in_range(offset, bits),
    ensures
        extract(storage, offset, bits) == (storage & place(offset, bits)) >> (offset as u128),
{
    lemma_mask_shift(offset, bits);
    lemma_shift_then_mask(storage, offset as u128, mask(bits));
}

/// Two values hold the same field exactly if they agree under the field's mask.
pub proof fn lemma_extract_agree(a: u128, b: u128, offset: u8, bits: u8)
    requires
        in_range(offset, bits),
    ensures
        extract(a, offset, bits) == extract(b, offset, bits) <==> a & place(offset, bits) == b
            & place(offset, bits),
{
    lemma_extract_in_place(a, offset, bits);
    lemma_extract_in_place(b, offset, bits);
    if extract(a, offset, bits) == extract(b, offset, bits) {
        lemma_shift_injective(a, b, offset as u128, mask(bits));
    }
}

/// Writing a field changes no bit outside the field's mask.
pub proof fn lemma_insert_outside(storage: u128, offset: u8, bits: u8, value: u128, outside: u128)
    requires
        in_range(offset, bits),
        place(offset, bits) & outside == 0,
    ensures
        insert(storage, offset, bits, value) & outside == storage & outside,
{
    lemma_shifted_inside(value, offset as u128, mask(bits));
    lemma_replace_outside(
        storage,
        (value & mask(bits)) << (offset as u128),
        place(offset, bits),
        outside,
    );
}

/// Reading a field that was just written gives the low bits of the value written.
pub proof fn lemma_insert_extract(storage: u128, offset: u8, bits: u8, value: u128)
    requires
        in_range(offset, bits),
    ensures
        extract(insert(storage, offset, bits, value), offset, bits) == value & mask(bits),
{
    lemma_mask_shift(offset, bits);
    lemma_extract_in_place(insert(storage, offset, bits, value), offset, bits);
    lemma_shifted_inside(value, offset as u128, mask(bits));
    lemma_replace_inside(storage, (value & mask(bits)) << (offset as u128), place(offset, bits));
    lemma_shift_back(value, offset as u128, mask(bits));
}

/// Writing a field leaves every field that does not overlap it as it was.
pub proof fn lemma_insert_extract_other(
    storage: u128,
    offset: u8,
    bits: u8,
    value: u128,
    other_offset: u8,
    other_bits: u8,
)
    requires
        in_range(offset, bits),
        in_range(other_offset, other_bits),
        offset + bits <= other_offset || other_offset + other_bits <= offset,
    ensures
        extract(insert(storage, offset, bits, value), other_offset, other_bits) == extract(
            storage,
            other_offset,
            other_bits,
        ),
{
    if offset + bits <= other_offset {
        lemma_place_disjoint(offset, bits, other_offset, other_bits);
    } else {
        lemma_place_disjoint(other_offset, other_bits, offset, bits);
    }
    lemma_insert_outside(storage, offset, bits, value, place(other_offset, other_bits));
    lemma_extract_agree(
        insert(storage, offset, bits, value),
        storage,
        other_offset,
        other_bits,
    );
}

} // verus!
