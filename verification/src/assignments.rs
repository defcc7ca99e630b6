//! The bodies of the operations that set many fields at once: for each field in turn,
//! which value is written into it.

use vstd::prelude::*;
use crate::bitfield_attribute::BitfieldAttribute;
use crate::bitfield_field::{BitfieldField, FieldAccess, FieldModel};
use crate::bits::{
    extract, extract_bits, insert, insert_bits, lemma_insert_extract, lemma_insert_extract_other,
    lemma_insert_outside, lemma_place_below, mask,
};
use crate::geometry::{lemma_field_place, lemma_fields_disjoint, valid_layout};
use crate::layout::models;
use crate::operations::{does_field_have_setter, has_setter, valid_field};

verus! {

/// The value that an assignment writes into its field.
#[derive(Debug, Copy, Clone, PartialEq, Eq, Structural)]
pub enum AssignedValue {
    /// The default value of the field.
    Default,
    /// Zero: for a custom type, the bits that it gives for zero.
    Zero,
    /// The bits that the input holds in the place of the field.
    Bits,
}

/// One step of an operation: the field at index `field` is set to `value`, by a call of
/// its setter where `through_setter` holds, and by the arithmetic of the setter otherwise.
#[derive(Debug, Copy, Clone, PartialEq, Eq, Structural)]
pub struct FieldAssignment {
    pub field: usize,
    pub value: AssignedValue,
    pub through_setter: bool,
}

/// What an operation that sets many fields does with each of them.
pub enum Rule {
    /// Every field is set to its default value, or to zero without one.
    Defaults,
    /// Padding is set to its default value, or to zero without one; every other field is
    /// set to zero. Read-only fields are left out unless they are included.
    Zeros { include_read_only: bool },
    /// Padding is set to its default value, or to zero without one. Any other field is
    /// set to its default value if it has one and defaults are respected, and to the bits
    /// of the input otherwise. Read-only fields are left out unless they are included.
    FromBits { respect_defaults: bool, include_read_only: bool },
}

/// The bits that an assignment to the field writes, before they are cut to its width.
pub open spec fn assigned_bits(field: FieldModel, value: AssignedValue, input: u128) -> u128 {
    match value {
        AssignedValue::Default => field.default_value,
        AssignedValue::Zero => field.zero_value,
        AssignedValue::Bits => extract(input, field.offset, field.bits),
    }
}

/// The storage after one assignment.
pub open spec fn apply_assignment(
    fields: Seq<FieldModel>,
    assignment: FieldAssignment,
    input: u128,
    storage: u128,
) -> u128 {
    let field = fields[assignment.field as int];
    insert(storage, field.offset, field.bits, assigned_bits(field, assignment.value, input))
}

/// The storage after the assignments, made in order.
pub open spec fn apply_assignments(
    fields: Seq<FieldModel>,
    assignments: Seq<FieldAssignment>,
    input: u128,
    storage: u128,
) -> u128
    decreases assignments.len(),
{
    if assignments.len() == 0 {
        storage
    } else {
        apply_assignment(
            fields,
            assignments.last(),
            input,
            apply_assignments(fields, assignments.drop_last(), input, storage),
        )
    }
}

/// The value of the last assignment to the field at `index`, if there is one.
pub open spec fn assignment_of(assignments: Seq<FieldAssignment>, index: int) -> Option<
    AssignedValue,
>
    decreases assignments.len(),
{
    if assignments.len() == 0 {
        None
    } else if assignments.last().field == index {
        Some(assignments.last().value)
    } else {
        assignment_of(assignments.drop_last(), index)
    }
}

/// Whether every assignment names a field.
pub open spec fn assignments_in_range(assignments: Seq<FieldAssignment>, count: nat) -> bool {
    forall|k: int| 0 <= k < assignments.len() ==> (#[trigger] assignments[k]).field < count
}

/// The value that sets a field to its default value, or to zero without one.
pub open spec fn default_or_zero(field: FieldModel) -> AssignedValue {
    if field.default_value_tokens.is_some() {
        AssignedValue::Default
    } else {
        AssignedValue::Zero
    }
}

/// Whether the rule sets the field.
pub open spec fn rule_includes(rule: Rule, field: FieldModel) -> bool {
    match rule {
        Rule::Defaults => true,
        Rule::Zeros { include_read_only } => include_read_only || field.access
            != FieldAccess::ReadOnly,
        Rule::FromBits { respect_defaults, include_read_only } => include_read_only
            || field.access != FieldAccess::ReadOnly,
    }
}

/// The value that the rule sets the field to.
pub open spec fn rule_value(rule: Rule, field: FieldModel) -> AssignedValue {
    match rule {
        Rule::Defaults => default_or_zero(field),
        Rule::Zeros { include_read_only } => if field.padding {
            default_or_zero(field)
        } else {
            AssignedValue::Zero
        },
        Rule::FromBits { respect_defaults, include_read_only } => if field.padding {
            default_or_zero(field)
        } else if field.default_value_tokens.is_some() && respect_defaults {
            AssignedValue::Default
        } else {
            AssignedValue::Bits
        },
    }
}

/// The assignments that the rule makes to the first `count` fields, in the order of the
/// fields.
pub open spec fn rule_assignments(rule: Rule, fields: Seq<FieldModel>, count: int) -> Seq<
    FieldAssignment,
>
    decreases count,
{
    if count <= 0 {
        Seq::empty()
    } else {
        let before = rule_assignments(rule, fields, count - 1);
        let field = fields[count - 1];
        if rule_includes(rule, field) {
            before.push(
                FieldAssignment {
                    field: (count - 1) as usize,
                    value: rule_value(rule, field),
                    through_setter: has_setter(field),
                },
            )
        } else {
            before
        }
    }
}

/// The assignments that set every field to its default value.
pub open spec fn setting_fields_default_values(fields: Seq<FieldModel>) -> Seq<FieldAssignment> {
    rule_assignments(Rule::Defaults, fields, fields.len() as int)
}

/// The assignments that set every field but padding to zero.
pub open spec fn setting_fields_to_zero(fields: Seq<FieldModel>, include_read_only: bool) -> Seq<
    FieldAssignment,
> {
    rule_assignments(Rule::Zeros { include_read_only }, fields, fields.len() as int)
}

/// The assignments that set the fields from the bits of an input.
pub open spec fn setting_fields_from_bits(
    fields: Seq<FieldModel>,
    respect_defaults: bool,
    include_read_only: bool,
) -> Seq<FieldAssignment> {
    rule_assignments(
        Rule::FromBits { respect_defaults, include_read_only },
        fields,
        fields.len() as int,
    )
}

/// The assignments of a rule name fields, and the last assignment to a field is the one
/// that the rule makes to it.
pub proof fn lemma_rule_assignments(rule: Rule, fields: Seq<FieldModel>, count: int, index: int)
    requires
        0 <= count <= fields.len() <= usize::MAX,
        0 <= index < fields.len(),
    ensures
        assignments_in_range(rule_assignments(rule, fields, count), count as nat),
        assignment_of(rule_assignments(rule, fields, count), index) == (if index < count
            && rule_includes(rule, fields[index]) {
            Some(rule_value(rule, fields[index]))
        } else {
            None
        }),
    decreases count,
{
    if count > 0 {
        lemma_rule_assignments(rule, fields, count - 1, index);
        let before = rule_assignments(rule, fields, count - 1);
        if rule_includes(rule, fields[count - 1]) {
            let all = rule_assignments(rule, fields, count);
            assert(all.drop_last() == before);
            assert(all.last().field == count - 1);
            assert forall|k: int| 0 <= k < all.len() implies (#[trigger] all[k]).field < count by {
                if k < before.len() {
                    assert(all[k] == before[k]);
                }
            }
        }
    }
}

/// After the assignments, a field holds the low bits of the last value assigned to it,
/// and what it held before if none was.
pub proof fn lemma_apply_assignments_field(
    attribute: BitfieldAttribute,
    fields: Seq<FieldModel>,
    assignments: Seq<FieldAssignment>,
    input: u128,
    storage: u128,
    index: int,
)
    requires
        valid_layout(attribute, fields),
        assignments_in_range(assignments, fields.len()),
        0 <= index < fields.len(),
    ensures
        extract(
            apply_assignments(fields, assignments, input, storage),
            fields[index].offset,
            fields[index].bits,
        ) == (match assignment_of(assignments, index) {
            Some(value) => assigned_bits(fields[index], value, input) & mask(fields[index].bits),
            None => extract(storage, fields[index].offset, fields[index].bits),
        }),
    decreases assignments.len(),
{
    if assignments.len() > 0 {
        let last = assignments.last();
        let before = apply_assignments(fields, assignments.drop_last(), input, storage);
        let written = fields[last.field as int];
        assert(assignments[assignments.len() - 1].field < fields.len());
        lemma_field_place(attribute, fields, last.field as int);
        lemma_field_place(attribute, fields, index);
        if last.field == index {
            lemma_insert_extract(
                before,
                written.offset,
                written.bits,
                assigned_bits(written, last.value, input),
            );
        } else {
            assert forall|k: int| 0 <= k < assignments.drop_last().len() implies (
            #[trigger] assignments.drop_last()[k]).field < fields.len() by {
                assert(assignments.drop_last()[k] == assignments[k]);
            }
            lemma_apply_assignments_field(
                attribute,
                fields,
                assignments.drop_last(),
                input,
                storage,
                index,
            );
            lemma_fields_disjoint(attribute, fields, last.field as int, index);
            lemma_insert_extract_other(
                before,
                written.offset,
                written.bits,
                assigned_bits(written, last.value, input),
                fields[index].offset,
                fields[index].bits,
            );
        }
    }
}

/// The assignments change no bit above the width of the bitfield.
pub proof fn lemma_apply_assignments_above(
    attribute: BitfieldAttribute,
    fields: Seq<FieldModel>,
    assignments: Seq<FieldAssignment>,
    input: u128,
    storage: u128,
)
    requires
        valid_layout(attribute, fields),
        assignments_in_range(assignments, fields.len()),
    ensures
        apply_assignments(fields, assignments, input, storage) & !mask(attribute.bits) == storage
            & !mask(attribute.bits),
    decreases assignments.len(),
{
    if assignments.len() > 0 {
        let last = assignments.last();
        let before = apply_assignments(fields, assignments.drop_last(), input, storage);
        let written = fields[last.field as int];
        assert(assignments[assignments.len() - 1].field < fields.len());
        assert forall|k: int| 0 <= k < assignments.drop_last().len() implies (
        #[trigger] assignments.drop_last()[k]).field < fields.len() by {
            assert(assignments.drop_last()[k] == assignments[k]);
        }
        lemma_apply_assignments_above(attribute, fields, assignments.drop_last(), input, storage);
        lemma_field_place(attribute, fields, last.field as int);
        lemma_place_below(written.offset, written.bits, attribute.bits);
        lemma_insert_outside(
            before,
            written.offset,
            written.bits,
            assigned_bits(written, last.value, input),
            !mask(attribute.bits),
        );
    }
}

/// Computes [`rule_assignments`] for all fields.
fn generate_rule_assignments(
    fields: &Vec<BitfieldField>,
    zeros: bool,
    from_bits: bool,
    respect_defaults: bool,
    include_read_only: bool,
) -> (assignments: Vec<FieldAssignment>)
    requires
        !(zeros && from_bits),
    ensures
        assignments@ == rule_assignments(
            if zeros {
                Rule::Zeros { include_read_only }
            } else if from_bits {
                Rule::FromBits { respect_defaults, include_read_only }
            } else {
                Rule::Defaults
            },
            models(fields@),
            fields@.len() as int,
        ),
{
    let ghost rule = if zeros {
        Rule::Zeros { include_read_only }
    } else if from_bits {
        Rule::FromBits { respect_defaults, include_read_only }
    } else {
        Rule::Defaults
    };
    let mut assignments: Vec<FieldAssignment> = Vec::new();
    let mut i: usize = 0;
    while i < fields.len()
        invariant
            i <= fields.len(),
            !(zeros && from_bits),
            rule == (if zeros {
                Rule::Zeros { include_read_only }
            } else if from_bits {
                Rule::FromBits { respect_defaults, include_read_only }
            } else {
                Rule::Defaults
            }),
            assignments@ == rule_assignments(rule, models(fields@), i as int),
        decreases fields.len() - i,
    {
        let field = &fields[i];
        assert(models(fields@)[i as int] == field@);
        let included = !(from_bits || zeros) || include_read_only || field.access
            != FieldAccess::ReadOnly;
        if included {
            let default_or_zero = if field.default_value_tokens.is_some() {
                AssignedValue::Default
            } else {
                AssignedValue::Zero
            };
            let value = if field.padding {
                default_or_zero
            } else if zeros {
                AssignedValue::Zero
            } else if from_bits {
                if field.default_value_tokens.is_some() && respect_defaults {
                    AssignedValue::Default
                } else {
                    AssignedValue::Bits
                }
            } else {
                default_or_zero
            };
            assignments.push(
                FieldAssignment {
                    field: i,
                    value,
                    through_setter: does_field_have_setter(field),
                },
            );
        }
        i += 1;
    }
    assignments
}

/// Generates the assignments that set the default values of the fields, or zero where a
/// field has no default value.
///
/// A field with a setter is set through it, any other by the arithmetic of a setter.
pub fn generate_setting_fields_default_values_tokens(fields: &Vec<BitfieldField>) -> (assignments:
    Vec<FieldAssignment>)
    ensures
        assignments@ == setting_fields_default_values(models(fields@)),
{
    generate_rule_assignments(fields, false, false, false, false)
}

/// Generates the assignments that set the fields to zero; padding keeps its default value.
///
/// When `include_read_only` is false, read-only fields are skipped.
pub fn generate_setting_fields_to_zero_tokens(
    fields: &Vec<BitfieldField>,
    include_read_only: bool,
) -> (assignments: Vec<FieldAssignment>)
    ensures
        assignments@ == setting_fields_to_zero(models(fields@), include_read_only),
{
    generate_rule_assignments(fields, true, false, false, include_read_only)
}

/// Generates the assignments that set the fields from the bits of an input.
///
/// When `respect_defaults` is true, a field with a default value is set to it and not
/// from the input. When `include_read_only` is false, read-only fields are skipped.
/// Padding keeps its default value.
pub fn generate_setting_fields_from_bits_tokens(
    fields: &Vec<BitfieldField>,
    respect_defaults: bool,
    include_read_only: bool,
) -> (assignments: Vec<FieldAssignment>)
    ensures
        assignments@ == setting_fields_from_bits(
            models(fields@),
            respect_defaults,
            include_read_only,
        ),
{
    generate_rule_assignments(fields, false, true, respect_defaults, include_read_only)
}

/// Makes the assignments on the storage, in order.
pub fn run_assignments(
    fields: &Vec<BitfieldField>,
    assignments: &Vec<FieldAssignment>,
    input: u128,
    storage: &mut u128,
)
    requires
        assignments_in_range(assignments@, fields@.len()),
        forall|i: int| 0 <= i < fields@.len() ==> valid_field(#[trigger] models(fields@)[i]),
    ensures
        *final(storage) == apply_assignments(models(fields@), assignments@, input, *old(storage)),
{
    let mut k: usize = 0;
    assert(assignments@.subrange(0, 0).len() == 0);
    while k < assignments.len()
        invariant
            k <= assignments.len(),
            assignments_in_range(assignments@, fields@.len()),
            forall|i: int| 0 <= i < fields@.len() ==> valid_field(#[trigger] models(fields@)[i]),
            *storage == apply_assignments(
                models(fields@),
                assignments@.subrange(0, k as int),
                input,
                *old(storage),
            ),
        decreases assignments.len() - k,
    {
        let assignment = assignments[k];
        assert(assignments@[k as int].field < fields@.len());
        let field = &fields[assignment.field];
        assert(models(fields@)[assignment.field as int] == field@);
        proof {
            let next = assignments@.subrange(0, k + 1);
            assert(next.drop_last() == assignments@.subrange(0, k as int));
            assert(next.last() == assignment);
        }
        let value = match assignment.value {
            AssignedValue::Default => field.default_value,
            AssignedValue::Zero => field.zero_value,
            AssignedValue::Bits => extract_bits(input, field.offset, field.bits),
        };
        *storage = insert_bits(*storage, field.offset, field.bits, value);
        k += 1;
    }
    assert(assignments@.subrange(0, k as int) == assignments@);
}

} // verus!
