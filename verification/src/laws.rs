//! What holds of the operations of every accepted bitfield.

use vstd::prelude::*;
use crate::assignments::{
    apply_assignments, assigned_bits, default_or_zero, lemma_apply_assignments_above,
    lemma_apply_assignments_field, lemma_rule_assignments, rule_assignments, rule_includes,
    rule_value, Rule,
};
use crate::bitfield::{
    accepted, lemma_described_fields_placed, blocks_at, checked_set_bit_storage, clear_bits_storage, clear_bits_with_defaults_storage,
    converted_storage, from_bits_storage, from_bits_with_defaults_storage, ingested,
    into_bits_value, lemma_layout_fields, new_storage, new_without_defaults_storage,
    set_bits_storage,
};
use crate::bitfield_attribute::{
    apply_arguments, default_policy, Argument, AttributeArguments, BitfieldAttribute, Endian,
};
use crate::bitfield_field::{FieldAccess, FieldModel};
use crate::bits::{
    lemma_masked_fits, extract, lemma_below_mask, lemma_extract_masked, lemma_insert_extract,
    lemma_insert_extract_other, lemma_zero_masked, mask,
};
use crate::bitfield_field::FieldDeclaration;
use crate::layout::{
    declares_ignored, described_fields, field_offset, packed_declaration, repeats_name,
    total_bits, StructDeclaration,
};
use crate::generation::{
    blocked_bits, blocked_bits_of, blocks_reading, blocks_writing, getter_of, setter_of,
    BlockedBits,
};
use crate::geometry::{
    bits_before, lemma_equal_by_fields, lemma_field_place, lemma_fields_disjoint, lemma_layout_count,
    valid_layout,
};
use crate::operations::{
    fills_signed_type, read_inverted, reads_signed, sign_extend, well_formed_field, exceeds_field, has_getter, has_setter, interpret, lemma_swap_bytes_twice, read_value,
    swap_bytes, valid_field, value_bits, value_signed, write_value, FieldValue,
};
use crate::types::{integer_type_of, is_signed_integer, type_bits, IntegerType};

verus! {

/// The bits that a field holds when it is at rest: the low bits of its default value, or
/// zero without one.
pub open spec fn resting_bits(field: FieldModel) -> u128 {
    assigned_bits(field, default_or_zero(field), 0) & mask(field.bits)
}

/// The bits that a rule leaves in the field at `index` of an accepted layout: the low
/// bits of the value that the rule sets the field to, or what the field held before.
pub proof fn lemma_rule_effect(
    attribute: BitfieldAttribute,
    fields: Seq<FieldModel>,
    rule: Rule,
    input: u128,
    storage: u128,
    index: int,
)
    requires
        valid_layout(attribute, fields),
        0 <= index < fields.len(),
    ensures
        extract(
            apply_assignments(
                fields,
                rule_assignments(rule, fields, fields.len() as int),
                input,
                storage,
            ),
            fields[index].offset,
            fields[index].bits,
        ) == (if rule_includes(rule, fields[index]) {
            assigned_bits(fields[index], rule_value(rule, fields[index]), input) & mask(
                fields[index].bits,
            )
        } else {
            extract(storage, fields[index].offset, fields[index].bits)
        }),
{
    lemma_layout_count(attribute, fields);
    lemma_layout_fields(attribute, fields, rule);
    lemma_rule_assignments(rule, fields, fields.len() as int, index);
    lemma_apply_assignments_field(
        attribute,
        fields,
        rule_assignments(rule, fields, fields.len() as int),
        input,
        storage,
        index,
    );
}

/// A rule that starts from a value of the backing type gives a value of the backing type.
pub proof fn lemma_rule_bounded(
    attribute: BitfieldAttribute,
    fields: Seq<FieldModel>,
    rule: Rule,
    input: u128,
    storage: u128,
)
    requires
        valid_layout(attribute, fields),
        storage <= mask(attribute.bits),
    ensures
        apply_assignments(fields, rule_assignments(rule, fields, fields.len() as int), input, storage)
            <= mask(attribute.bits),
{
    lemma_layout_fields(attribute, fields, rule);
    lemma_apply_assignments_above(
        attribute,
        fields,
        rule_assignments(rule, fields, fields.len() as int),
        input,
        storage,
    );
    lemma_below_mask(storage, attribute.bits);
    lemma_below_mask(
        apply_assignments(fields, rule_assignments(rule, fields, fields.len() as int), input, storage),
        attribute.bits,
    );
}

/// The arguments of the attribute change neither the backing type nor the width of a
/// policy.
proof fn lemma_arguments_keep_type(attribute: BitfieldAttribute, arguments: Seq<Argument>)
    requires
        apply_arguments(attribute, arguments) is Ok,
    ensures
        apply_arguments(attribute, arguments)->Ok_0.ty == attribute.ty,
        apply_arguments(attribute, arguments)->Ok_0.bits == attribute.bits,
    decreases arguments.len(),
{
    if arguments.len() > 0 {
        lemma_arguments_keep_type(attribute, arguments.drop_last());
    }
}

/// Layout completeness: whatever is accepted is a valid layout, whose fields hold exactly
/// as many bits as the backing type, and in which only padding fields share a name.
pub proof fn lemma_accepted_layout(arguments: AttributeArguments, declaration: StructDeclaration)
    requires
        accepted(arguments, declaration) is Ok,
    ensures
        ({
            let (attribute, fields, ignored) = accepted(arguments, declaration)->Ok_0;
            &&& total_bits(fields) == attribute.bits
            &&& valid_layout(attribute, fields)
            &&& forall|j: int| 0 <= j < fields.len() ==> !repeats_name(fields, j)
            &&& forall|i: int, j: int|
                0 <= i < j < fields.len() && (#[trigger] fields[i]).name == (
                #[trigger] fields[j]).name ==> fields[i].padding && fields[j].padding
        }),
{
    let (attribute, fields, ignored) = accepted(arguments, declaration)->Ok_0;
    let integer_type = integer_type_of(arguments.ty->Some_0@);
    lemma_arguments_keep_type(
        default_policy(integer_type, type_bits(integer_type).unwrap()),
        arguments.arguments@,
    );
    assert forall|i: int| 0 <= i < fields.len() implies well_formed_field(#[trigger] fields[i])
        && fields[i].offset == field_offset(fields[i].bits, attribute, bits_before(fields, i)) by {
        lemma_described_fields_placed(attribute, declaration.fields@, i);
    }
    assert forall|i: int, j: int|
        0 <= i < j < fields.len() && (#[trigger] fields[i]).name == (
        #[trigger] fields[j]).name implies fields[i].padding && fields[j].padding by {
        assert(well_formed_field(fields[i]) && well_formed_field(fields[j]));
        if !fields[i].padding {
            assert(repeats_name(fields, j));
        }
    }
}

/// Round trip: a value of the backing type that is made into a bitfield, by `from_bits`
/// or by the conversion from the backing integer, and back into bits is the same value,
/// where input and output have the same endianness and the value holds in every padding
/// field what that field holds at rest.
pub proof fn lemma_round_trip(attribute: BitfieldAttribute, fields: Seq<FieldModel>, x: u128)
    requires
        valid_layout(attribute, fields),
        x <= mask(attribute.bits),
        attribute.from_endian == attribute.into_endian,
        forall|i: int|
            0 <= i < fields.len() && (#[trigger] fields[i]).padding ==> extract(
                ingested(attribute, x),
                fields[i].offset,
                fields[i].bits,
            ) == resting_bits(fields[i]),
    ensures
        into_bits_value(attribute, from_bits_storage(attribute, fields, x)) == x,
{
    let input = ingested(attribute, x);
    let rule = Rule::FromBits { respect_defaults: false, include_read_only: true };
    let storage = from_bits_storage(attribute, fields, x);
    lemma_swap_bytes_twice(x, attribute.bits);
    lemma_zero_masked(mask(attribute.bits));
    lemma_rule_bounded(attribute, fields, rule, input, 0);
    assert forall|i: int| 0 <= i < fields.len() implies extract(
        storage,
        (#[trigger] fields[i]).offset,
        fields[i].bits,
    ) == extract(input, fields[i].offset, fields[i].bits) by {
        lemma_rule_effect(attribute, fields, rule, input, 0, i);
        lemma_field_place(attribute, fields, i);
        lemma_extract_masked(input, fields[i].offset, fields[i].bits);
    }
    lemma_equal_by_fields(attribute, fields, storage, input);
}

/// Defaults respected: the bitfield made from bits with defaults holds in every field
/// with a default value the low bits of that value, whatever the bits, and in every other
/// field what the bitfield made from the bits without defaults holds.
pub proof fn lemma_defaults_respected(
    attribute: BitfieldAttribute,
    fields: Seq<FieldModel>,
    x: u128,
    index: int,
)
    requires
        valid_layout(attribute, fields),
        0 <= index < fields.len(),
    ensures
        fields[index].default_value_tokens.is_some() ==> extract(
            from_bits_with_defaults_storage(attribute, fields, x),
            fields[index].offset,
            fields[index].bits,
        ) == fields[index].default_value & mask(fields[index].bits),
        fields[index].default_value_tokens.is_none() ==> extract(
            from_bits_with_defaults_storage(attribute, fields, x),
            fields[index].offset,
            fields[index].bits,
        ) == extract(
            from_bits_storage(attribute, fields, x),
            fields[index].offset,
            fields[index].bits,
        ),
        fields[index].default_value_tokens.is_some() ==> read_value(
            fields[index],
            from_bits_with_defaults_storage(attribute, fields, x),
        ) == interpret(fields[index], fields[index].default_value & mask(fields[index].bits)),
        fields[index].default_value_tokens.is_none() ==> read_value(
            fields[index],
            from_bits_with_defaults_storage(attribute, fields, x),
        ) == read_value(fields[index], from_bits_storage(attribute, fields, x)),
{
    let input = ingested(attribute, x);
    lemma_rule_effect(
        attribute,
        fields,
        Rule::FromBits { respect_defaults: true, include_read_only: true },
        input,
        0,
        index,
    );
    lemma_rule_effect(
        attribute,
        fields,
        Rule::FromBits { respect_defaults: false, include_read_only: true },
        input,
        0,
        index,
    );
}

/// Truncation law: a getter after the setter of the same field returns the value that
/// the low bits of the value set stand for; for a signed field, their sign extension.
pub proof fn lemma_set_then_get(field: FieldModel, storage: u128, value: FieldValue)
    requires
        valid_field(field),
    ensures
        read_value(field, write_value(field, storage, value)) == interpret(
            field,
            value_bits(value) & mask(field.bits),
        ),
        field.integer_type != IntegerType::Bool && !is_signed_integer(field.integer_type)
            ==> read_value(field, write_value(field, storage, value)) == FieldValue::Unsigned(
            value_bits(value) & mask(field.bits),
        ),
        reads_signed(field) ==> read_value(field, write_value(field, storage, value))
            == FieldValue::Signed(sign_extend(value_bits(value) & mask(field.bits), field.bits)),
{
    lemma_insert_extract(storage, field.offset, field.bits, value_bits(value));
}

/// The getter that is generated for a field returns what the field holds, and the getter
/// of the inverted bits what the inverted bits of the field stand for.
pub proof fn lemma_getter_reads_field(
    attribute: BitfieldAttribute,
    field: FieldModel,
    index: int,
    inverted: bool,
    storage: u128,
)
    requires
        valid_field(field),
    ensures
        getter_of(attribute, field, index, inverted).well_formed(),
        getter_of(attribute, field, index, inverted).value(storage) == read_value(field, storage),
        getter_of(attribute, field, index, inverted).inverted_value(storage) == read_inverted(
            field,
            storage,
        ),
{
}

/// The setters that are generated for a field write what the setter of the field
/// writes, and the checked one refuses what the field cannot hold.
pub proof fn lemma_setter_writes_field(
    attribute: BitfieldAttribute,
    field: FieldModel,
    index: int,
    storage: u128,
    value: FieldValue,
)
    requires
        valid_field(field),
    ensures
        setter_of(attribute, field, index).well_formed(),
        setter_of(attribute, field, index).stored(storage, value) == write_value(
            field,
            storage,
            value,
        ),
        setter_of(attribute, field, index).refuses(value) == exceeds_field(field, value),
{
}

/// Whether the bit at `index` lies in one of the blocked runs of bits.
pub open spec fn blocked_at(blocked: Seq<BlockedBits>, index: int) -> bool {
    exists|k: int| 0 <= k < blocked.len() && (#[trigger] blocked[k]).start <= index < blocked[k].end
}

/// The bits that are generated as blocked for a bit operation are the bits of the fields
/// that may not be read, or that may not be written.
pub proof fn lemma_blocked_bits(fields: Seq<FieldModel>, writing: bool, index: int, count: int)
    requires
        0 <= count <= fields.len(),
    ensures
        blocked_at(blocked_bits(fields, writing, count), index) <==> exists|i: int|
            0 <= i < count && blocks_at(#[trigger] fields[i], index, writing),
    decreases count,
{
    if count > 0 {
        lemma_blocked_bits(fields, writing, index, count - 1);
        let before = blocked_bits(fields, writing, count - 1);
        let all = blocked_bits(fields, writing, count);
        let field = fields[count - 1];
        let added = (writing && blocks_writing(field)) || (!writing && blocks_reading(field));
        if blocked_at(all, index) {
            let k = choose|k: int|
                0 <= k < all.len() && (#[trigger] all[k]).start <= index < all[k].end;
            if added && k == all.len() - 1 {
                assert(blocks_at(fields[count - 1], index, writing));
            } else {
                assert(all[k] == before[k]);
                assert(blocked_at(before, index));
                let i = choose|i: int|
                    0 <= i < count - 1 && blocks_at(#[trigger] fields[i], index, writing);
                assert(blocks_at(fields[i], index, writing));
            }
        }
        if exists|i: int| 0 <= i < count && blocks_at(#[trigger] fields[i], index, writing) {
            let i = choose|i: int| 0 <= i < count && blocks_at(#[trigger] fields[i], index, writing);
            if i == count - 1 {
                assert(added);
                assert(all[all.len() - 1] == blocked_bits_of(field));
                assert(all[all.len() - 1].start <= index < all[all.len() - 1].end);
            } else {
                assert(blocks_at(fields[i], index, writing));
                assert(blocked_at(before, index));
                let k = choose|k: int|
                    0 <= k < before.len() && (#[trigger] before[k]).start <= index < before[k].end;
                assert(all[k] == before[k]);
            }
        }
    }
}

/// A setter leaves every other field of an accepted layout as it was.
pub proof fn lemma_set_keeps_others(
    attribute: BitfieldAttribute,
    fields: Seq<FieldModel>,
    storage: u128,
    value: FieldValue,
    written: int,
    other: int,
)
    requires
        valid_layout(attribute, fields),
        0 <= written < fields.len(),
        0 <= other < fields.len(),
        written != other,
    ensures
        extract(
            write_value(fields[written], storage, value),
            fields[other].offset,
            fields[other].bits,
        ) == extract(storage, fields[other].offset, fields[other].bits),
        read_value(fields[other], write_value(fields[written], storage, value)) == read_value(
            fields[other],
            storage,
        ),
{
    lemma_field_place(attribute, fields, written);
    lemma_field_place(attribute, fields, other);
    lemma_fields_disjoint(attribute, fields, written, other);
    lemma_insert_extract_other(
        storage,
        fields[written].offset,
        fields[written].bits,
        value_bits(value),
        fields[other].offset,
        fields[other].bits,
    );
}

/// The bits of a value in the type of the field: as many of its low bits as the type is
/// wide, and all of them for a custom type.
pub open spec fn type_pattern(field: FieldModel, value: FieldValue) -> u128 {
    match type_bits(field.integer_type) {
        Some(width) => value_bits(value) & mask(width),
        None => value_bits(value),
    }
}

/// Whether the value is one that the checked setter of the field compares by its bits: a
/// boolean for a boolean field, any value for a signed field as wide as its type and for a
/// custom field, a value of the type that is not negative for a narrower signed field, and
/// a value of the type for an unsigned field.
pub open spec fn compared_by_bits(field: FieldModel, value: FieldValue) -> bool {
    if field.integer_type == IntegerType::Bool {
        value is Bool
    } else if fills_signed_type(field) || type_bits(field.integer_type).is_none() {
        true
    } else if is_signed_integer(field.integer_type) {
        value_signed(value) >= 0 && value_bits(value) <= mask(
            type_bits(field.integer_type).unwrap(),
        )
    } else {
        value_bits(value) <= mask(type_bits(field.integer_type).unwrap())
    }
}

/// Checked rejection: the checked setter refuses a value exactly if its bits in the type
/// of the field exceed the mask of the field, for every value that it compares by its
/// bits. A signed field as wide as its type refuses nothing.
pub proof fn lemma_checked_rejection(field: FieldModel, value: FieldValue)
    requires
        valid_field(field),
        compared_by_bits(field, value),
    ensures
        exceeds_field(field, value) <==> type_pattern(field, value) > mask(field.bits),
        fills_signed_type(field) ==> !exceeds_field(field, value),
{
    match type_bits(field.integer_type) {
        Some(width) => {
            lemma_masked_fits(value_bits(value), width);
            if field.integer_type == IntegerType::Bool {
                lemma_mask_at_least_one(1);
            }
        },
        None => {},
    }
}

proof fn lemma_mask_at_least_one(bits: u8)
    by (bit_vector)
    requires
        1 <= bits,
    ensures
        mask(bits) >= 1,
{
}

/// Endianness: a bitfield made from little-endian bits is the bitfield made from the
/// same bits with their bytes reversed, taken as big-endian.
pub proof fn lemma_little_endian_input(
    attribute: BitfieldAttribute,
    fields: Seq<FieldModel>,
    x: u128,
)
    requires
        attribute.from_endian == Endian::Little,
    ensures
        from_bits_storage(attribute, fields, x) == from_bits_storage(
            BitfieldAttribute { from_endian: Endian::Big, ..attribute },
            fields,
            swap_bytes(x, attribute.bits),
        ),
        from_bits_with_defaults_storage(attribute, fields, x) == from_bits_with_defaults_storage(
            BitfieldAttribute { from_endian: Endian::Big, ..attribute },
            fields,
            swap_bytes(x, attribute.bits),
        ),
{
}

/// Padding default isolation: a padding field has neither getter nor setter, and it holds
/// its default value, or zero without one, in every new bitfield, in every bitfield made
/// from bits, and after every operation that sets or clears many fields.
pub proof fn lemma_padding_at_rest(
    attribute: BitfieldAttribute,
    fields: Seq<FieldModel>,
    storage: u128,
    x: u128,
    respect_defaults: bool,
    index: int,
)
    requires
        valid_layout(attribute, fields),
        0 <= index < fields.len(),
        fields[index].padding,
    ensures
        !has_getter(fields[index]),
        !has_setter(fields[index]),
        extract(new_storage(fields), fields[index].offset, fields[index].bits) == resting_bits(
            fields[index],
        ),
        extract(new_without_defaults_storage(fields), fields[index].offset, fields[index].bits)
            == resting_bits(fields[index]),
        extract(converted_storage(fields, x), fields[index].offset, fields[index].bits)
            == resting_bits(fields[index]),
        extract(
            from_bits_storage(attribute, fields, x),
            fields[index].offset,
            fields[index].bits,
        ) == resting_bits(fields[index]),
        extract(
            from_bits_with_defaults_storage(attribute, fields, x),
            fields[index].offset,
            fields[index].bits,
        ) == resting_bits(fields[index]),
        extract(
            set_bits_storage(fields, storage, x, respect_defaults),
            fields[index].offset,
            fields[index].bits,
        ) == resting_bits(fields[index]),
        extract(clear_bits_storage(fields, storage), fields[index].offset, fields[index].bits)
            == resting_bits(fields[index]),
        extract(
            clear_bits_with_defaults_storage(fields, storage),
            fields[index].offset,
            fields[index].bits,
        ) == resting_bits(fields[index]),
{
    let input = ingested(attribute, x);
    assert(well_formed_field(fields[index]));
    lemma_rule_effect(attribute, fields, Rule::Defaults, 0, 0, index);
    lemma_rule_effect(attribute, fields, Rule::Zeros { include_read_only: true }, 0, 0, index);
    lemma_rule_effect(
        attribute,
        fields,
        Rule::Zeros { include_read_only: false },
        0,
        storage,
        index,
    );
    lemma_rule_effect(
        attribute,
        fields,
        Rule::FromBits { respect_defaults: false, include_read_only: true },
        x,
        0,
        index,
    );
    lemma_rule_effect(
        attribute,
        fields,
        Rule::FromBits { respect_defaults: false, include_read_only: true },
        input,
        0,
        index,
    );
    lemma_rule_effect(
        attribute,
        fields,
        Rule::FromBits { respect_defaults: true, include_read_only: true },
        input,
        0,
        index,
    );
    lemma_rule_effect(
        attribute,
        fields,
        Rule::FromBits { respect_defaults, include_read_only: false },
        x,
        storage,
        index,
    );
    lemma_rule_effect(
        attribute,
        fields,
        Rule::FromBits { respect_defaults: true, include_read_only: false },
        0,
        storage,
        index,
    );
}

/// Padding default isolation: what a padding field holds is changed neither by the setter
/// of a field nor by setting a bit.
pub proof fn lemma_padding_untouched(
    attribute: BitfieldAttribute,
    fields: Seq<FieldModel>,
    storage: u128,
    value: FieldValue,
    written: int,
    bit_index: usize,
    bit: bool,
    index: int,
)
    requires
        valid_layout(attribute, fields),
        0 <= index < fields.len(),
        0 <= written < fields.len(),
        fields[index].padding,
        has_setter(fields[written]),
    ensures
        extract(
            write_value(fields[written], storage, value),
            fields[index].offset,
            fields[index].bits,
        ) == extract(storage, fields[index].offset, fields[index].bits),
        match checked_set_bit_storage(attribute, fields, storage, bit_index, bit) {
            Ok(after) => extract(after, fields[index].offset, fields[index].bits) == extract(
                storage,
                fields[index].offset,
                fields[index].bits,
            ),
            Err(_) => true,
        },
{
    lemma_set_keeps_others(attribute, fields, storage, value, written, index);
    lemma_field_place(attribute, fields, index);
    if checked_set_bit_storage(attribute, fields, storage, bit_index, bit) is Ok {
        assert(!blocks_at(fields[index], bit_index as int, true));
        lemma_insert_extract_other(
            storage,
            bit_index as u8,
            1,
            if bit {
                1
            } else {
                0
            },
            fields[index].offset,
            fields[index].bits,
        );
    }
}


/// The number of declarations from `start` on that are not marked as ignored.
pub open spec fn packed_count(declarations: Seq<FieldDeclaration>, start: int) -> nat
    decreases declarations.len() - start,
{
    if start < 0 || start >= declarations.len() {
        0
    } else if declares_ignored(declarations[start]) {
        packed_count(declarations, start + 1)
    } else {
        1 + packed_count(declarations, start + 1)
    }
}

/// A declaration that is found stays found when one more declaration follows.
proof fn lemma_packed_declaration_extends(
    declarations: Seq<FieldDeclaration>,
    added: FieldDeclaration,
    start: int,
    index: int,
)
    requires
        0 <= start,
        packed_declaration(declarations, start, index).is_some(),
    ensures
        packed_declaration(declarations.push(added), start, index) == packed_declaration(
            declarations,
            start,
            index,
        ),
    decreases declarations.len() - start,
{
    if start < declarations.len() {
        assert(declarations.push(added)[start] == declarations[start]);
        if declares_ignored(declarations[start]) {
            lemma_packed_declaration_extends(declarations, added, start + 1, index);
        } else if index != 0 {
            lemma_packed_declaration_extends(declarations, added, start + 1, index - 1);
        }
    }
}

/// One more declaration that is not marked as ignored is found behind the packed ones
/// before it, and counted with them.
proof fn lemma_packed_declaration_added(
    declarations: Seq<FieldDeclaration>,
    added: FieldDeclaration,
    start: int,
)
    requires
        0 <= start <= declarations.len(),
    ensures
        !declares_ignored(added) ==> packed_declaration(
            declarations.push(added),
            start,
            packed_count(declarations, start) as int,
        ) == Some(declarations.len() as int),
        packed_count(declarations.push(added), start) == packed_count(declarations, start) + (
        if declares_ignored(added) {
            0nat
        } else {
            1nat
        }),
    decreases declarations.len() - start,
{
    if start < declarations.len() {
        assert(declarations.push(added)[start] == declarations[start]);
        lemma_packed_declaration_added(declarations, added, start + 1);
    } else {
        assert(declarations.push(added)[start] == added);
        assert(packed_count(declarations.push(added), start + 1) == 0);
    }
}

/// The packed fields that declarations describe are as many as the declarations that are
/// not marked as ignored.
proof fn lemma_packed_count(attribute: BitfieldAttribute, declarations: Seq<FieldDeclaration>)
    requires
        described_fields(attribute, declarations) is Ok,
    ensures
        described_fields(attribute, declarations)->Ok_0.0.len() == packed_count(declarations, 0),
    decreases declarations.len(),
{
    if declarations.len() > 0 {
        let before = declarations.drop_last();
        lemma_packed_count(attribute, before);
        lemma_packed_declaration_added(before, declarations.last(), 0);
        assert(before.push(declarations.last()) == declarations);
    }
}

/// A packed field is found among the declarations by its index: the declaration that
/// [`packed_declaration`] gives for it is the one that described it, and has its name.
pub proof fn lemma_packed_declaration_names(
    attribute: BitfieldAttribute,
    declarations: Seq<FieldDeclaration>,
    index: int,
)
    requires
        described_fields(attribute, declarations) is Ok,
        0 <= index < described_fields(attribute, declarations)->Ok_0.0.len(),
    ensures
        ({
            let fields = described_fields(attribute, declarations)->Ok_0.0;
            let found = packed_declaration(declarations, 0, index);
            &&& found.is_some()
            &&& 0 <= found.unwrap() < declarations.len()
            &&& declarations[found.unwrap()].name@ == fields[index].name
            &&& declarations[found.unwrap()].ty@ == fields[index].ty
        }),
    decreases declarations.len(),
{
    if declarations.len() > 0 {
        let before = declarations.drop_last();
        let last = declarations.last();
        let fields_before = described_fields(attribute, before)->Ok_0.0;
        assert(before.push(last) == declarations);
        if index < fields_before.len() {
            lemma_packed_declaration_names(attribute, before, index);
            lemma_packed_declaration_extends(before, last, 0, index);
        } else {
            lemma_packed_count(attribute, before);
            lemma_packed_declaration_added(before, last, 0);
        }
    }
}

} // verus!
