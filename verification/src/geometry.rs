//! Where the fields of an accepted layout lie: side by side, without a gap, over the whole
//! width of the bitfield.

use vstd::prelude::*;
use crate::bitfield_attribute::{BitOrder, BitfieldAttribute};
use crate::bitfield_field::FieldModel;
use crate::bits::{
    extract, lemma_agree_under_both, lemma_below_mask, lemma_cover_down, lemma_cover_up,
    lemma_extract_agree, mask, place,
};
use crate::layout::{field_offset, total_bits};
use crate::operations::{valid_field, well_formed_field};
use crate::types::{is_backing_type, type_bits};

verus! {

/// The number of bits that the fields before the field at `index` hold together.
pub open spec fn bits_before(fields: Seq<FieldModel>, index: int) -> nat {
    total_bits(fields.subrange(0, index))
}

/// Whether the fields are an accepted layout of a bitfield with the given policy: the
/// backing type is an unsigned integer, every field is well formed and lies at the offset
/// that the order of the bits gives it, and the fields hold exactly as many bits as the
/// backing type.
pub open spec fn valid_layout(attribute: BitfieldAttribute, fields: Seq<FieldModel>) -> bool {
    &&& is_backing_type(attribute.ty)
    &&& type_bits(attribute.ty) == Some(attribute.bits)
    &&& total_bits(fields) == attribute.bits
    &&& forall|i: int|
        0 <= i < fields.len() ==> well_formed_field(#[trigger] fields[i]) && fields[i].offset
            == field_offset(fields[i].bits, attribute, bits_before(fields, i))
}

/// The bits of the layout that the first `count` fields hold.
pub open spec fn covered(attribute: BitfieldAttribute, fields: Seq<FieldModel>, count: int) -> u128 {
    match attribute.bit_order {
        BitOrder::Lsb => mask(bits_before(fields, count) as u8),
        BitOrder::Msb => mask(attribute.bits) & !mask(
            (attribute.bits - bits_before(fields, count)) as u8,
        ),
    }
}

/// The bits before a field and its own bits are the bits before the next field, and no
/// more than all bits.
pub proof fn lemma_bits_before(fields: Seq<FieldModel>, index: int)
    requires
        0 <= index < fields.len(),
    ensures
        bits_before(fields, index) + fields[index].bits == bits_before(fields, index + 1),
        bits_before(fields, index + 1) <= total_bits(fields),
    decreases fields.len() - index,
{
    assert(fields.subrange(0, index + 1).drop_last() == fields.subrange(0, index));
    if index + 1 == fields.len() {
        assert(fields.subrange(0, index + 1) == fields);
    } else {
        lemma_bits_before(fields, index + 1);
    }
}

/// The bits before a field are at most the bits before any later field.
pub proof fn lemma_bits_before_ordered(fields: Seq<FieldModel>, i: int, j: int)
    requires
        0 <= i <= j <= fields.len(),
    ensures
        bits_before(fields, i) <= bits_before(fields, j),
    decreases j - i,
{
    if i < j {
        lemma_bits_before(fields, i);
        lemma_bits_before_ordered(fields, i + 1, j);
    }
}

/// Fields that are not empty are at most as many as the bits that they hold together.
pub proof fn lemma_count_bound(fields: Seq<FieldModel>)
    requires
        forall|i: int| 0 <= i < fields.len() ==> (#[trigger] fields[i]).bits >= 1,
    ensures
        fields.len() <= total_bits(fields),
    decreases fields.len(),
{
    if fields.len() > 0 {
        assert forall|i: int| 0 <= i < fields.drop_last().len() implies (
        #[trigger] fields.drop_last()[i]).bits >= 1 by {
            assert(fields.drop_last()[i] == fields[i]);
        }
        lemma_count_bound(fields.drop_last());
    }
}

/// An accepted layout has at most as many fields as the bitfield has bits.
pub proof fn lemma_layout_count(attribute: BitfieldAttribute, fields: Seq<FieldModel>)
    requires
        valid_layout(attribute, fields),
    ensures
        fields.len() <= attribute.bits <= 128,
{
    lemma_count_bound(fields);
}

/// In an accepted layout every field lies inside the width of the bitfield: from the
/// least significant bit up it begins where the fields before it end, from the most
/// significant bit down it ends where they begin.
pub proof fn lemma_field_place(attribute: BitfieldAttribute, fields: Seq<FieldModel>, index: int)
    requires
        valid_layout(attribute, fields),
        0 <= index < fields.len(),
    ensures
        valid_field(fields[index]),
        fields[index].offset + fields[index].bits <= attribute.bits <= 128,
        attribute.bit_order == BitOrder::Lsb ==> fields[index].offset == bits_before(fields, index),
        attribute.bit_order == BitOrder::Msb ==> fields[index].offset + fields[index].bits
            + bits_before(fields, index) == attribute.bits,
{
    lemma_bits_before(fields, index);
}

/// In an accepted layout no two fields overlap.
pub proof fn lemma_fields_disjoint(
    attribute: BitfieldAttribute,
    fields: Seq<FieldModel>,
    i: int,
    j: int,
)
    requires
        valid_layout(attribute, fields),
        0 <= i < fields.len(),
        0 <= j < fields.len(),
        i != j,
    ensures
        fields[i].offset + fields[i].bits <= fields[j].offset || fields[j].offset + fields[j].bits
            <= fields[i].offset,
{
    lemma_field_place(attribute, fields, i);
    lemma_field_place(attribute, fields, j);
    lemma_bits_before(fields, i);
    lemma_bits_before(fields, j);
    if i < j {
        lemma_bits_before_ordered(fields, i + 1, j);
    } else {
        lemma_bits_before_ordered(fields, j + 1, i);
    }
}

proof fn lemma_mask_edges(a: u128, width: u8)
    by (bit_vector)
    ensures
        a & mask(0) == 0,
        a & (mask(width) & !mask(width)) == 0,
        mask(width) & !mask(0) == mask(width),
{
}

/// Two values that hold the same bits in each of the first `count` fields of an accepted
/// layout agree in all the bits that those fields hold.
proof fn lemma_agree_on_covered(
    attribute: BitfieldAttribute,
    fields: Seq<FieldModel>,
    a: u128,
    b: u128,
    count: int,
)
    requires
        valid_layout(attribute, fields),
        0 <= count <= fields.len(),
        forall|i: int|
            0 <= i < count ==> extract(a, (#[trigger] fields[i]).offset, fields[i].bits)
                == extract(b, fields[i].offset, fields[i].bits),
    ensures
        a & covered(attribute, fields, count) == b & covered(attribute, fields, count),
    decreases count,
{
    if count == 0 {
        assert(fields.subrange(0, 0).len() == 0);
        lemma_mask_edges(a, attribute.bits);
        lemma_mask_edges(b, attribute.bits);
    } else {
        let last = count - 1;
        let field = fields[last];
        lemma_agree_on_covered(attribute, fields, a, b, last);
        lemma_field_place(attribute, fields, last);
        lemma_bits_before(fields, last);
        lemma_extract_agree(a, b, field.offset, field.bits);
        match attribute.bit_order {
            BitOrder::Lsb => {
                lemma_cover_up(field.offset, field.bits, (field.offset + field.bits) as u8);
            },
            BitOrder::Msb => {
                lemma_cover_down(
                    attribute.bits,
                    field.offset,
                    field.bits,
                    (field.offset + field.bits) as u8,
                );
            },
        }
        lemma_agree_under_both(
            a,
            b,
            covered(attribute, fields, last),
            place(field.offset, field.bits),
        );
    }
}

/// Two values of the backing type that hold the same bits in every field of an accepted
/// layout are equal: the fields leave no bit out.
pub proof fn lemma_equal_by_fields(
    attribute: BitfieldAttribute,
    fields: Seq<FieldModel>,
    a: u128,
    b: u128,
)
    requires
        valid_layout(attribute, fields),
        a <= mask(attribute.bits),
        b <= mask(attribute.bits),
        forall|i: int|
            0 <= i < fields.len() ==> extract(a, (#[trigger] fields[i]).offset, fields[i].bits)
                == extract(b, fields[i].offset, fields[i].bits),
    ensures
        a == b,
{
    lemma_agree_on_covered(attribute, fields, a, b, fields.len() as int);
    assert(fields.subrange(0, fields.len() as int) == fields);
    lemma_mask_edges(a, attribute.bits);
    lemma_below_mask(a, attribute.bits);
    lemma_below_mask(b, attribute.bits);
}

} // verus!
