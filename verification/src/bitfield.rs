//! From the declaration of a struct to the operations of its bitfield, and what those
//! operations compute on the backing integer.

use vstd::prelude::*;
use crate::assignments::{
    apply_assignments, assignments_in_range, generate_setting_fields_default_values_tokens,
    generate_setting_fields_from_bits_tokens, generate_setting_fields_to_zero_tokens,
    lemma_rule_assignments, run_assignments, setting_fields_default_values,
    setting_fields_from_bits, setting_fields_to_zero, FieldAssignment, Rule,
};
use crate::bitfield_attribute::{
    parse_attribute, AttributeArguments, BitOrder, BitfieldAttribute, Endian,
};
use crate::bitfield_field::{BitfieldField, FieldDeclaration, FieldModel, Visibility};
use crate::bits::{extract, extract_bits, insert_bits};
use crate::error::{BitfieldError, OperationError};
use crate::generation::{
    blocked_bits, blocks_reading, blocks_writing, builder_setters, debug_fields,
    field_constants, field_getters, field_setters, generate_blocked_bits,
    generate_builder_setters, generate_debug_implementation, generate_field_constants_tokens,
    generate_field_getters_functions_tokens, generate_field_setters_functions_tokens,
    valid_fields, BlockedBits, BuilderSetter, DebugField, FieldConstants, FieldGetter,
    FieldSetter,
};
use crate::geometry::{bits_before, lemma_field_place, lemma_layout_count, valid_layout};
use crate::layout::{
    check_bitfield_names_unique, check_bitfield_type_contain_field_bits, described_fields,
    field_offset, models, parse_fields, repeats_name, struct_fields, total_bits, StructDeclaration,
};
use crate::operations::{
    bit_at, checked_set_field, does_field_have_getter, does_field_have_setter, exceeds_field,
    get_field, has_getter, has_setter, read_value, set_field, swap_bytes, swap_bytes_of,
    valid_field, well_formed_field, with_bit, write_value, FieldValue,
};

verus! {

/// How the generated struct holds its storage.
#[derive(Debug, Copy, Clone, PartialEq, Eq, Structural)]
pub enum StructShape {
    /// As the only field of a tuple struct, which is laid out as the backing integer.
    Tuple,
    /// As the field `val` before the ignored fields.
    WithFields,
}

/// A function that makes a bitfield from the bits of the backing integer.
#[derive(Debug, Clone)]
pub struct FromBitsFunction {
    /// Whether the bytes of the input are reversed first.
    pub swap_bytes: bool,
    /// The assignments to the fields, on a storage of zero.
    pub assignments: Vec<FieldAssignment>,
}

/// A function that gives the backing integer of a bitfield.
#[derive(Debug, Copy, Clone, PartialEq, Eq, Structural)]
pub struct IntoBitsFunction {
    /// Whether the bytes of the storage are reversed.
    pub swap_bytes: bool,
}

/// The functions that read, or that write, one bit.
#[derive(Debug, Clone)]
pub struct BitOperations {
    /// The width of the bitfield: an index from there on is out of bounds.
    pub bits: usize,
    /// The bits that the functions do not touch.
    pub blocked: Vec<BlockedBits>,
}

/// The builder of a bitfield.
#[derive(Debug, Clone)]
pub struct Builder {
    /// The methods that set a field.
    pub setters: Vec<BuilderSetter>,
    /// The assignments of `new`, on a storage of zero.
    pub new: Vec<FieldAssignment>,
    /// The assignments of `new_without_defaults`, on a storage of zero.
    pub new_without_defaults: Vec<FieldAssignment>,
}

/// Everything that is generated for one bitfield.
#[derive(Debug, Clone)]
pub struct GeneratedBitfield {
    /// The name of the struct.
    pub name: String,
    /// The visibility of the struct, which its operations share.
    pub vis: Visibility,
    /// The other attributes on the struct, handed on as they are.
    pub attributes: Vec<String>,
    /// The policy.
    pub attribute: BitfieldAttribute,
    /// The packed fields.
    pub fields: Vec<BitfieldField>,
    /// The ignored fields, which the struct holds beside its storage.
    pub ignored_fields: Vec<BitfieldField>,
    /// How the struct holds its storage.
    pub shape: StructShape,
    /// `new`.
    pub new_function: Option<Vec<FieldAssignment>>,
    /// `new_without_defaults`.
    pub new_without_defaults_function: Option<Vec<FieldAssignment>>,
    /// `from_bits`.
    pub from_bits_function: Option<FromBitsFunction>,
    /// `from_bits_with_defaults`.
    pub from_bits_with_defaults_function: Option<FromBitsFunction>,
    /// `into_bits`.
    pub into_bits_function: Option<IntoBitsFunction>,
    /// The constants of the fields.
    pub field_constants: Vec<FieldConstants>,
    /// The getters of the fields.
    pub field_getters: Vec<FieldGetter>,
    /// The setters of the fields.
    pub field_setters: Vec<FieldSetter>,
    /// The default value.
    pub default_implementation: Option<Vec<FieldAssignment>>,
    /// The builder.
    pub builder: Option<Builder>,
    /// The conversion from the backing integer.
    pub from_bitfield_type: Option<FromBitsFunction>,
    /// The conversion into the backing integer.
    pub into_bitfield_type: Option<IntoBitsFunction>,
    /// The debug formatting.
    pub debug_implementation: Option<Vec<DebugField>>,
    /// `get_bit` and `checked_get_bit`.
    pub get_bit_operations: Option<BitOperations>,
    /// `set_bit` and `checked_set_bit`.
    pub set_bit_operations: Option<BitOperations>,
    /// `set_bits`.
    pub set_bits_function: Option<Vec<FieldAssignment>>,
    /// `set_bits_with_defaults`.
    pub set_bits_with_defaults_function: Option<Vec<FieldAssignment>>,
    /// `clear_bits`.
    pub clear_bits_function: Option<Vec<FieldAssignment>>,
    /// `clear_bits_with_defaults`.
    pub clear_bits_with_defaults_function: Option<Vec<FieldAssignment>>,
}

/// The assignments of an optional function.
pub open spec fn optional_assignments(function: Option<Vec<FieldAssignment>>) -> Option<
    Seq<FieldAssignment>,
> {
    match function {
        Some(assignments) => Some(assignments@),
        None => None,
    }
}

/// What an optional function from bits holds.
pub open spec fn optional_from_bits(function: Option<FromBitsFunction>) -> Option<
    (bool, Seq<FieldAssignment>),
> {
    match function {
        Some(f) => Some((f.swap_bytes, f.assignments@)),
        None => None,
    }
}

/// What optional bit operations hold.
pub open spec fn optional_bit_operations(operations: Option<BitOperations>) -> Option<
    (usize, Seq<BlockedBits>),
> {
    match operations {
        Some(o) => Some((o.bits, o.blocked@)),
        None => None,
    }
}

/// `value` if `generate` holds.
pub open spec fn when<T>(generate: bool, value: T) -> Option<T> {
    if generate {
        Some(value)
    } else {
        None
    }
}

/// The storage of `new` and of the default value: every field holds its default value,
/// or zero without one.
pub open spec fn new_storage(fields: Seq<FieldModel>) -> u128 {
    apply_assignments(fields, setting_fields_default_values(fields), 0, 0)
}

/// The storage of `new_without_defaults`: padding holds its default value, every other
/// field zero, which for a custom type is the bits that it gives for zero.
pub open spec fn new_without_defaults_storage(fields: Seq<FieldModel>) -> u128 {
    apply_assignments(fields, setting_fields_to_zero(fields, true), 0, 0)
}

/// The input of `from_bits` as the fields are taken from it: with its bytes reversed where
/// the input is little-endian.
pub open spec fn ingested(attribute: BitfieldAttribute, bits: u128) -> u128 {
    if attribute.from_endian == Endian::Little {
        swap_bytes(bits, attribute.bits)
    } else {
        bits
    }
}

/// The storage that is made from an input as the fields are taken from it: every field
/// but padding holds the bits of the input, padding its default value.
pub open spec fn converted_storage(fields: Seq<FieldModel>, bits: u128) -> u128 {
    apply_assignments(fields, setting_fields_from_bits(fields, false, true), bits, 0)
}

/// The storage of `from_bits` and of the conversion from the backing integer: made from
/// the ingested input.
pub open spec fn from_bits_storage(
    attribute: BitfieldAttribute,
    fields: Seq<FieldModel>,
    bits: u128,
) -> u128 {
    converted_storage(fields, ingested(attribute, bits))
}

/// The storage of `from_bits_with_defaults`: as `from_bits`, but a field with a default
/// value holds it.
pub open spec fn from_bits_with_defaults_storage(
    attribute: BitfieldAttribute,
    fields: Seq<FieldModel>,
    bits: u128,
) -> u128 {
    apply_assignments(
        fields,
        setting_fields_from_bits(fields, true, true),
        ingested(attribute, bits),
        0,
    )
}

/// What `into_bits` returns: the storage, with its bytes reversed where the output is
/// little-endian.
pub open spec fn into_bits_value(attribute: BitfieldAttribute, storage: u128) -> u128 {
    if attribute.into_endian == Endian::Little {
        swap_bytes(storage, attribute.bits)
    } else {
        storage
    }
}

/// The storage after `set_bits`, or after `set_bits_with_defaults`: as after the
/// conversion from the backing integer, but read-only fields keep what they hold.
pub open spec fn set_bits_storage(
    fields: Seq<FieldModel>,
    storage: u128,
    bits: u128,
    respect_defaults: bool,
) -> u128 {
    apply_assignments(
        fields,
        setting_fields_from_bits(fields, respect_defaults, false),
        bits,
        storage,
    )
}

/// The storage after `clear_bits`: padding holds its default value, every other field
/// zero, and read-only fields keep what they hold.
pub open spec fn clear_bits_storage(fields: Seq<FieldModel>, storage: u128) -> u128 {
    apply_assignments(fields, setting_fields_to_zero(fields, false), 0, storage)
}

/// The storage after `clear_bits_with_defaults`: a field with a default value holds it,
/// any other zero, and read-only fields keep what they hold.
pub open spec fn clear_bits_with_defaults_storage(fields: Seq<FieldModel>, storage: u128) -> u128 {
    set_bits_storage(fields, storage, 0, true)
}

/// Whether the bit at `index` lies in the field, and the field may not be read, or may
/// not be written.
pub open spec fn blocks_at(field: FieldModel, index: int, writing: bool) -> bool {
    (if writing {
        blocks_writing(field)
    } else {
        blocks_reading(field)
    }) && field.offset <= index < field.offset + field.bits
}

/// Whether the bit at `index` lies in a field that may not be read.
pub open spec fn read_blocked(fields: Seq<FieldModel>, index: int) -> bool {
    exists|i: int| 0 <= i < fields.len() && blocks_at(#[trigger] fields[i], index, false)
}

/// Whether the bit at `index` lies in a field that may not be written.
pub open spec fn write_blocked(fields: Seq<FieldModel>, index: int) -> bool {
    exists|i: int| 0 <= i < fields.len() && blocks_at(#[trigger] fields[i], index, true)
}

/// What `checked_get_bit` returns: the bit at `index`, unless the index is not below the
/// width of the bitfield or the bit may not be read.
pub open spec fn checked_get_bit_value(
    attribute: BitfieldAttribute,
    fields: Seq<FieldModel>,
    storage: u128,
    index: usize,
) -> Result<bool, OperationError> {
    if index >= attribute.bits {
        Err(OperationError::IndexOutOfBounds)
    } else if read_blocked(fields, index as int) {
        Err(OperationError::NoReadAccessAtBit)
    } else {
        Ok(bit_at(storage, index as u8))
    }
}

/// What `checked_set_bit` does: it sets the bit at `index`, unless the index is not below
/// the width of the bitfield or the bit may not be written.
pub open spec fn checked_set_bit_storage(
    attribute: BitfieldAttribute,
    fields: Seq<FieldModel>,
    storage: u128,
    index: usize,
    bit: bool,
) -> Result<u128, OperationError> {
    if index >= attribute.bits {
        Err(OperationError::IndexOutOfBounds)
    } else if write_blocked(fields, index as int) {
        Err(OperationError::NoWriteAccessAtBit)
    } else {
        Ok(with_bit(storage, index as u8, bit))
    }
}

/// What the debug formatting shows of the fields: for each of the first `count` of them in
/// the order of the formatting, its name, a colon and its bits in decimal digits, with a
/// comma between two fields.
pub open spec fn debug_entries(
    attribute: BitfieldAttribute,
    fields: Seq<FieldModel>,
    storage: u128,
    count: int,
) -> Seq<char>
    decreases count,
{
    if count <= 0 {
        Seq::empty()
    } else {
        let shown = debug_fields(attribute, fields)[count - 1];
        (if count == 1 {
            Seq::<char>::empty()
        } else {
            debug_entries(attribute, fields, storage, count - 1) + ", "@
        }) + fields[shown.field as int].name + ": "@ + crate::text::decimal_digits(
            extract(storage, shown.offset as u8, shown.bits as u8) as nat,
        )
    }
}

/// The debug formatting of a bitfield: the name of the struct and, between braces, its
/// fields from the most significant one down.
pub open spec fn debug_text(
    name: Seq<char>,
    attribute: BitfieldAttribute,
    fields: Seq<FieldModel>,
    storage: u128,
) -> Seq<char> {
    if fields.len() == 0 {
        name
    } else {
        name + " { "@ + debug_entries(attribute, fields, storage, fields.len() as int) + " }"@
    }
}

/// The index of the first field from `start` on that has the name, if there is one.
pub open spec fn find_field(fields: Seq<FieldModel>, name: Seq<char>, start: int) -> Option<int>
    decreases fields.len() - start,
{
    if start < 0 || start >= fields.len() {
        None
    } else if fields[start].name == name {
        Some(start)
    } else {
        find_field(fields, name, start + 1)
    }
}

/// The field that has a getter of the given name.
pub open spec fn getter_field(fields: Seq<FieldModel>, name: Seq<char>) -> Option<FieldModel> {
    match find_field(fields, name, 0) {
        Some(i) => if has_getter(fields[i]) {
            Some(fields[i])
        } else {
            None
        },
        None => None,
    }
}

/// The field whose setters go by the given name of a field.
pub open spec fn setter_field(fields: Seq<FieldModel>, name: Seq<char>) -> Option<FieldModel> {
    match find_field(fields, name, 0) {
        Some(i) => if has_setter(fields[i]) {
            Some(fields[i])
        } else {
            None
        },
        None => None,
    }
}

/// What the front end and the checks make of the arguments of the attribute and the
/// declaration of the struct: the policy, the packed fields and the ignored fields.
///
/// The errors come in this order: those of the arguments of the attribute, those of the
/// fields in the order of their declaration, the width of the layout, and names that are
/// used twice.
pub open spec fn accepted(arguments: AttributeArguments, declaration: StructDeclaration) -> Result<
    (BitfieldAttribute, Seq<FieldModel>, Seq<FieldModel>),
    BitfieldError,
> {
    match parse_attribute(arguments) {
        Err(e) => Err(BitfieldError::Attribute(e)),
        Ok(attribute) => match struct_fields(attribute, declaration) {
            Err(e) => Err(e),
            Ok((fields, ignored)) => if total_bits(fields) > attribute.bits {
                Err(
                    BitfieldError::LayoutBudgetExceeded {
                        total: total_bits(fields) as u128,
                        bits: attribute.bits,
                    },
                )
            } else if total_bits(fields) < attribute.bits {
                Err(
                    BitfieldError::LayoutBudgetUnderfilled {
                        total: total_bits(fields) as u128,
                        bits: attribute.bits,
                        remaining: (attribute.bits - total_bits(fields)) as u8,
                    },
                )
            } else if exists|j: int| 0 <= j < fields.len() && repeats_name(fields, j) {
                Err(BitfieldError::DuplicateFieldName { index: first_repeated(fields, 0) as usize })
            } else {
                Ok((attribute, fields, ignored))
            },
        },
    }
}

/// The index of the first field from `start` on that repeats a name; the number of fields
/// if there is none.
pub open spec fn first_repeated(fields: Seq<FieldModel>, start: int) -> int
    decreases fields.len() - start,
{
    if start < 0 || start >= fields.len() {
        fields.len() as int
    } else if repeats_name(fields, start) {
        start
    } else {
        first_repeated(fields, start + 1)
    }
}

impl GeneratedBitfield {
    /// Whether the fields are an accepted layout for the policy.
    pub open spec fn valid(&self) -> bool {
        valid_layout(self.attribute, models(self.fields@))
    }

    /// Whether this is what is generated for the policy and the fields: every operation
    /// that the policy asks for, with the body that its generator gives it.
    pub open spec fn generated_from(
        &self,
        attribute: BitfieldAttribute,
        fields: Seq<FieldModel>,
        ignored: Seq<FieldModel>,
    ) -> bool {
        let count = fields.len() as int;
        let defaults = setting_fields_default_values(fields);
        let zeros = setting_fields_to_zero(fields, true);
        &&& self.attribute == attribute
        &&& models(self.fields@) == fields
        &&& models(self.ignored_fields@) == ignored
        &&& self.shape == (if ignored.len() == 0 {
            StructShape::Tuple
        } else {
            StructShape::WithFields
        })
        &&& optional_assignments(self.new_function) == when(attribute.generate_new_func, defaults)
        &&& optional_assignments(self.new_without_defaults_function) == when(
            attribute.generate_new_func,
            zeros,
        )
        &&& optional_from_bits(self.from_bits_function) == when(
            attribute.generate_from_bits_func,
            (
                attribute.from_endian == Endian::Little,
                setting_fields_from_bits(fields, false, true),
            ),
        )
        &&& optional_from_bits(self.from_bits_with_defaults_function) == when(
            attribute.generate_from_bits_func,
            (attribute.from_endian == Endian::Little, setting_fields_from_bits(fields, true, true)),
        )
        &&& self.into_bits_function == when(
            attribute.generate_into_bits_func,
            IntoBitsFunction { swap_bytes: attribute.into_endian == Endian::Little },
        )
        &&& self.field_constants@ == field_constants(fields, count)
        &&& self.field_getters@ == field_getters(attribute, fields, false, count)
        &&& self.field_setters@ == field_setters(attribute, fields, count)
        &&& optional_assignments(self.default_implementation) == when(
            attribute.generate_default_impl,
            defaults,
        )
        &&& match self.builder {
            Some(builder) => attribute.generate_builder && builder.setters@ == builder_setters(
                fields,
                count,
            ) && builder.new@ == defaults && builder.new_without_defaults@ == zeros,
            None => !attribute.generate_builder,
        }
        &&& optional_from_bits(self.from_bitfield_type) == when(
            attribute.generate_from_trait_funcs,
            (
                attribute.from_endian == Endian::Little,
                setting_fields_from_bits(fields, false, true),
            ),
        )
        &&& self.into_bitfield_type == when(
            attribute.generate_from_trait_funcs,
            IntoBitsFunction { swap_bytes: attribute.into_endian == Endian::Little },
        )
        &&& match self.debug_implementation {
            Some(debug) => attribute.generate_debug_impl && debug@ == debug_fields(
                attribute,
                fields,
            ),
            None => !attribute.generate_debug_impl,
        }
        &&& optional_bit_operations(self.get_bit_operations) == when(
            attribute.generate_bit_ops,
            (attribute.bits as usize, blocked_bits(fields, false, count)),
        )
        &&& optional_bit_operations(self.set_bit_operations) == when(
            attribute.generate_bit_ops,
            (attribute.bits as usize, blocked_bits(fields, true, count)),
        )
        &&& optional_assignments(self.set_bits_function) == when(
            attribute.generate_set_bits_impl,
            setting_fields_from_bits(fields, false, false),
        )
        &&& optional_assignments(self.set_bits_with_defaults_function) == when(
            attribute.generate_set_bits_impl,
            setting_fields_from_bits(fields, true, false),
        )
        &&& optional_assignments(self.clear_bits_function) == when(
            attribute.generate_clear_bits_impl,
            setting_fields_to_zero(fields, false),
        )
        &&& optional_assignments(self.clear_bits_with_defaults_function) == when(
            attribute.generate_clear_bits_impl,
            setting_fields_from_bits(fields, true, false),
        )
    }
}


/// Generates the `new` function for the bitfield.
pub fn generate_new_function_tokens(fields: &Vec<BitfieldField>) -> (r: Vec<FieldAssignment>)
    ensures
        r@ == setting_fields_default_values(models(fields@)),
{
    generate_setting_fields_default_values_tokens(fields)
}

/// Generates the `new` function for the bitfield without setting default values.
pub fn generate_new_without_defaults_function_tokens(fields: &Vec<BitfieldField>) -> (r: Vec<
    FieldAssignment,
>)
    ensures
        r@ == setting_fields_to_zero(models(fields@), true),
{
    generate_setting_fields_to_zero_tokens(fields, true)
}

/// Generates the default implementation.
pub fn generate_default_implementation_tokens(fields: &Vec<BitfieldField>) -> (r: Vec<
    FieldAssignment,
>)
    ensures
        r@ == setting_fields_default_values(models(fields@)),
{
    generate_setting_fields_default_values_tokens(fields)
}

/// Generates the `from_bits` function for the bitfield.
pub fn generate_from_bits_function_tokens(
    fields: &Vec<BitfieldField>,
    bitfield_attribute: &BitfieldAttribute,
) -> (r: FromBitsFunction)
    ensures
        r.swap_bytes == (bitfield_attribute.from_endian == Endian::Little),
        r.assignments@ == setting_fields_from_bits(models(fields@), false, true),
{
    FromBitsFunction {
        swap_bytes: bitfield_attribute.from_endian == Endian::Little,
        assignments: generate_setting_fields_from_bits_tokens(fields, false, true),
    }
}

/// Generates the `from_bits_with_defaults` function for the bitfield.
pub fn generate_from_bits_with_defaults_function_tokens(
    fields: &Vec<BitfieldField>,
    bitfield_attribute: &BitfieldAttribute,
) -> (r: FromBitsFunction)
    ensures
        r.swap_bytes == (bitfield_attribute.from_endian == Endian::Little),
        r.assignments@ == setting_fields_from_bits(models(fields@), true, true),
{
    FromBitsFunction {
        swap_bytes: bitfield_attribute.from_endian == Endian::Little,
        assignments: generate_setting_fields_from_bits_tokens(fields, true, true),
    }
}

/// Generates the `into_bits` function for the bitfield.
pub fn generate_into_bits_function_tokens(bitfield_attribute: &BitfieldAttribute) -> (r:
    IntoBitsFunction)
    ensures
        r == (IntoBitsFunction { swap_bytes: bitfield_attribute.into_endian == Endian::Little }),
{
    IntoBitsFunction { swap_bytes: bitfield_attribute.into_endian == Endian::Little }
}

/// Generates the conversion from the backing integer: as `from_bits`, with the bytes of a
/// little-endian input reversed first.
pub fn generate_from_bitfield_type_for_bitfield_implementation_tokens(
    fields: &Vec<BitfieldField>,
    bitfield_attribute: &BitfieldAttribute,
) -> (r: FromBitsFunction)
    ensures
        r.swap_bytes == (bitfield_attribute.from_endian == Endian::Little),
        r.assignments@ == setting_fields_from_bits(models(fields@), false, true),
{
    FromBitsFunction {
        swap_bytes: bitfield_attribute.from_endian == Endian::Little,
        assignments: generate_setting_fields_from_bits_tokens(fields, false, true),
    }
}

/// Generates the conversion into the backing integer: as `into_bits`.
pub fn generate_from_bitfield_for_bitfield_type_implementation_tokens(
    bitfield_attribute: &BitfieldAttribute,
) -> (r: IntoBitsFunction)
    ensures
        r == (IntoBitsFunction { swap_bytes: bitfield_attribute.into_endian == Endian::Little }),
{
    IntoBitsFunction { swap_bytes: bitfield_attribute.into_endian == Endian::Little }
}

/// Generates the `set_bits` function: the writable fields are set from the bits.
pub fn generate_set_bits_function_tokens(fields: &Vec<BitfieldField>) -> (r: Vec<FieldAssignment>)
    ensures
        r@ == setting_fields_from_bits(models(fields@), false, false),
{
    generate_setting_fields_from_bits_tokens(fields, false, false)
}

/// Generates the `set_bits_with_defaults` function: the writable fields are set from the
/// bits, but a field with a default value is set to it.
pub fn generate_set_bits_with_defaults_function_tokens(fields: &Vec<BitfieldField>) -> (r: Vec<
    FieldAssignment,
>)
    ensures
        r@ == setting_fields_from_bits(models(fields@), true, false),
{
    generate_setting_fields_from_bits_tokens(fields, true, false)
}

/// Generates the `clear_bits` function: the writable fields are set to zero.
pub fn generate_clear_bits_function_tokens(fields: &Vec<BitfieldField>) -> (r: Vec<FieldAssignment>)
    ensures
        r@ == setting_fields_to_zero(models(fields@), false),
{
    generate_setting_fields_to_zero_tokens(fields, false)
}

/// Generates the `clear_bits_with_defaults` function: the writable fields are set from
/// bits that are all zero, but a field with a default value is set to it.
pub fn generate_clear_bits_preserve_defaults_function_tokens(fields: &Vec<BitfieldField>) -> (r:
    Vec<FieldAssignment>)
    ensures
        r@ == setting_fields_from_bits(models(fields@), true, false),
{
    generate_setting_fields_from_bits_tokens(fields, true, false)
}

/// Generates `get_bit` and `checked_get_bit`.
pub fn generate_get_bit_tokens(
    bitfield_attribute: &BitfieldAttribute,
    fields: &Vec<BitfieldField>,
) -> (r: BitOperations)
    requires
        valid_fields(models(fields@)),
    ensures
        r.bits == bitfield_attribute.bits,
        r.blocked@ == blocked_bits(models(fields@), false, fields@.len() as int),
{
    BitOperations {
        bits: bitfield_attribute.bits as usize,
        blocked: generate_blocked_bits(fields, false),
    }
}

/// Generates `set_bit` and `checked_set_bit`.
pub fn generate_set_bit_tokens(
    bitfield_attribute: &BitfieldAttribute,
    fields: &Vec<BitfieldField>,
) -> (r: BitOperations)
    requires
        valid_fields(models(fields@)),
    ensures
        r.bits == bitfield_attribute.bits,
        r.blocked@ == blocked_bits(models(fields@), true, fields@.len() as int),
{
    BitOperations {
        bits: bitfield_attribute.bits as usize,
        blocked: generate_blocked_bits(fields, true),
    }
}

/// Generates the builder implementation: `new` seeds the default values,
/// `new_without_defaults` zero, and each field with a setter gets its two methods.
pub fn generate_builder_tokens(fields: &Vec<BitfieldField>) -> (r: Builder)
    requires
        valid_fields(models(fields@)),
    ensures
        r.setters@ == builder_setters(models(fields@), fields@.len() as int),
        r.new@ == setting_fields_default_values(models(fields@)),
        r.new_without_defaults@ == setting_fields_to_zero(models(fields@), true),
{
    Builder {
        setters: generate_builder_setters(fields),
        new: generate_setting_fields_default_values_tokens(fields),
        new_without_defaults: generate_setting_fields_to_zero_tokens(fields, true),
    }
}

fn copy_texts(texts: &Vec<String>) -> (r: Vec<String>)
    ensures
        r@ == texts@,
{
    let mut r: Vec<String> = Vec::new();
    let mut i: usize = 0;
    while i < texts.len()
        invariant
            i <= texts.len(),
            r@ == texts@.subrange(0, i as int),
        decreases texts.len() - i,
    {
        r.push(texts[i].clone());
        i += 1;
    }
    assert(texts@.subrange(0, texts@.len() as int) == texts@);
    r
}

/// Generate the bitfield functions: every operation that the policy asks for.
pub fn generate_functions(
    bitfield_attribute: &BitfieldAttribute,
    fields: Vec<BitfieldField>,
    ignored_fields: Vec<BitfieldField>,
    struct_tokens: &StructDeclaration,
) -> (r: GeneratedBitfield)
    requires
        valid_fields(models(fields@)),
    ensures
        r.generated_from(*bitfield_attribute, models(fields@), models(ignored_fields@)),
        r.fields == fields,
        r.ignored_fields == ignored_fields,
        r.name == struct_tokens.name,
        r.vis == struct_tokens.vis,
        r.attributes@ == struct_tokens.attributes@,
{
    let a = *bitfield_attribute;
    let shape = if ignored_fields.len() == 0 {
        StructShape::Tuple
    } else {
        StructShape::WithFields
    };
    let new_function = if a.generate_new_func {
        Some(generate_new_function_tokens(&fields))
    } else {
        None
    };
    let new_without_defaults_function = if a.generate_new_func {
        Some(generate_new_without_defaults_function_tokens(&fields))
    } else {
        None
    };
    let from_bits_function = if a.generate_from_bits_func {
        Some(generate_from_bits_function_tokens(&fields, bitfield_attribute))
    } else {
        None
    };
    let from_bits_with_defaults_function = if a.generate_from_bits_func {
        Some(generate_from_bits_with_defaults_function_tokens(&fields, bitfield_attribute))
    } else {
        None
    };
    let into_bits_function = if a.generate_into_bits_func {
        Some(generate_into_bits_function_tokens(bitfield_attribute))
    } else {
        None
    };
    let field_constants = generate_field_constants_tokens(&fields);
    let field_getters = generate_field_getters_functions_tokens(bitfield_attribute, &fields, false);
    let field_setters = generate_field_setters_functions_tokens(bitfield_attribute, &fields);
    let default_implementation = if a.generate_default_impl {
        Some(generate_default_implementation_tokens(&fields))
    } else {
        None
    };
    let builder = if a.generate_builder {
        Some(generate_builder_tokens(&fields))
    } else {
        None
    };
    let from_bitfield_type = if a.generate_from_trait_funcs {
        Some(
            generate_from_bitfield_type_for_bitfield_implementation_tokens(
                &fields,
                bitfield_attribute,
            ),
        )
    } else {
        None
    };
    let into_bitfield_type = if a.generate_from_trait_funcs {
        Some(generate_from_bitfield_for_bitfield_type_implementation_tokens(bitfield_attribute))
    } else {
        None
    };
    let debug_implementation = if a.generate_debug_impl {
        Some(generate_debug_implementation(bitfield_attribute, &fields))
    } else {
        None
    };
    let get_bit_operations = if a.generate_bit_ops {
        Some(generate_get_bit_tokens(bitfield_attribute, &fields))
    } else {
        None
    };
    let set_bit_operations = if a.generate_bit_ops {
        Some(generate_set_bit_tokens(bitfield_attribute, &fields))
    } else {
        None
    };
    let set_bits_function = if a.generate_set_bits_impl {
        Some(generate_set_bits_function_tokens(&fields))
    } else {
        None
    };
    let set_bits_with_defaults_function = if a.generate_set_bits_impl {
        Some(generate_set_bits_with_defaults_function_tokens(&fields))
    } else {
        None
    };
    let clear_bits_function = if a.generate_clear_bits_impl {
        Some(generate_clear_bits_function_tokens(&fields))
    } else {
        None
    };
    let clear_bits_with_defaults_function = if a.generate_clear_bits_impl {
        Some(generate_clear_bits_preserve_defaults_function_tokens(&fields))
    } else {
        None
    };
    GeneratedBitfield {
        name: struct_tokens.name.clone(),
        vis: struct_tokens.vis.duplicate(),
        attributes: copy_texts(&struct_tokens.attributes),
        attribute: a,
        fields,
        ignored_fields,
        shape,
        new_function,
        new_without_defaults_function,
        from_bits_function,
        from_bits_with_defaults_function,
        into_bits_function,
        field_constants,
        field_getters,
        field_setters,
        default_implementation,
        builder,
        from_bitfield_type,
        into_bitfield_type,
        debug_implementation,
        get_bit_operations,
        set_bit_operations,
        set_bits_function,
        set_bits_with_defaults_function,
        clear_bits_function,
        clear_bits_with_defaults_function,
    }
}

/// The packed fields that declarations describe are well formed, and each lies at the
/// offset that the order of the bits gives it behind the fields before it.
pub proof fn lemma_described_fields_placed(
    attribute: BitfieldAttribute,
    declarations: Seq<FieldDeclaration>,
    index: int,
)
    requires
        described_fields(attribute, declarations) is Ok,
        0 <= index < described_fields(attribute, declarations)->Ok_0.0.len(),
    ensures
        ({
            let fields = described_fields(attribute, declarations)->Ok_0.0;
            well_formed_field(fields[index]) && fields[index].offset == field_offset(
                fields[index].bits,
                attribute,
                bits_before(fields, index),
            )
        }),
    decreases declarations.len(),
{
    let fields = described_fields(attribute, declarations)->Ok_0.0;
    if declarations.len() > 0 {
        let before = described_fields(attribute, declarations.drop_last())->Ok_0.0;
        if index < before.len() {
            lemma_described_fields_placed(attribute, declarations.drop_last(), index);
            assert(fields.subrange(0, index) == before.subrange(0, index));
        } else {
            assert(fields.subrange(0, index) == before);
        }
    }
}

/// The first field that repeats a name is the one before which none does.
proof fn lemma_first_repeated(fields: Seq<FieldModel>, start: int, index: int)
    requires
        0 <= start <= index < fields.len(),
        repeats_name(fields, index),
        forall|j: int| 0 <= j < index ==> !repeats_name(fields, j),
    ensures
        first_repeated(fields, start) == index,
    decreases index - start,
{
    if start < index {
        lemma_first_repeated(fields, start + 1, index);
    }
}

/// Parses the bitfield attribute, struct, and fields.
///
/// On success the fields are an accepted layout: they lie side by side and hold exactly
/// as many bits as the backing integer.
pub fn parse_bitfield(args: &AttributeArguments, input: &StructDeclaration) -> (r: Result<
    GeneratedBitfield,
    BitfieldError,
>)
    ensures
        match r {
            Ok(generated) => accepted(*args, *input) == Ok::<
                (BitfieldAttribute, Seq<FieldModel>, Seq<FieldModel>),
                BitfieldError,
            >(
                (
                    generated.attribute,
                    models(generated.fields@),
                    models(generated.ignored_fields@),
                ),
            ) && generated.valid() && total_bits(models(generated.fields@))
                == generated.attribute.bits && generated.generated_from(
                generated.attribute,
                models(generated.fields@),
                models(generated.ignored_fields@),
            ) && generated.name == input.name && generated.vis == input.vis
                && generated.attributes@ == input.attributes@,
            Err(e) => accepted(*args, *input) == Err::<
                (BitfieldAttribute, Seq<FieldModel>, Seq<FieldModel>),
                BitfieldError,
            >(e),
        },
{
    let bitfield_attribute = match BitfieldAttribute::parse(args) {
        Ok(bitfield_attribute) => bitfield_attribute,
        Err(err) => {
            return Err(BitfieldError::Attribute(err));
        },
    };
    let (fields, ignored_fields) = parse_fields(&bitfield_attribute, input)?;
    check_bitfield_type_contain_field_bits(&bitfield_attribute, &fields)?;
    match check_bitfield_names_unique(&fields) {
        Ok(()) => {},
        Err(e) => {
            proof {
                match e {
                    BitfieldError::DuplicateFieldName { index } => {
                        lemma_first_repeated(models(fields@), 0, index as int);
                    },
                    _ => {},
                }
            }
            return Err(e);
        },
    }
    proof {
        assert forall|i: int| 0 <= i < fields@.len() implies well_formed_field(
            #[trigger] models(fields@)[i],
        ) && models(fields@)[i].offset == field_offset(
            models(fields@)[i].bits,
            bitfield_attribute,
            bits_before(models(fields@), i),
        ) by {
            lemma_described_fields_placed(bitfield_attribute, input.fields@, i);
        }
        assert(valid_layout(bitfield_attribute, models(fields@)));
        assert forall|i: int| 0 <= i < fields@.len() implies valid_field(
            #[trigger] models(fields@)[i],
        ) by {
            lemma_field_place(bitfield_attribute, models(fields@), i);
        }
    }
    Ok(generate_functions(&bitfield_attribute, fields, ignored_fields, input))
}

/// Creates a bitfield for the struct: reads the policy from the arguments of the
/// attribute, describes and checks the fields, and generates the operations.
pub fn bitfield(args: &AttributeArguments, input: &StructDeclaration) -> (r: Result<
    GeneratedBitfield,
    BitfieldError,
>)
    ensures
        match r {
            Ok(generated) => accepted(*args, *input) == Ok::<
                (BitfieldAttribute, Seq<FieldModel>, Seq<FieldModel>),
                BitfieldError,
            >(
                (
                    generated.attribute,
                    models(generated.fields@),
                    models(generated.ignored_fields@),
                ),
            ) && generated.valid() && total_bits(models(generated.fields@))
                == generated.attribute.bits && generated.generated_from(
                generated.attribute,
                models(generated.fields@),
                models(generated.ignored_fields@),
            ) && generated.name == input.name && generated.vis == input.vis
                && generated.attributes@ == input.attributes@,
            Err(e) => accepted(*args, *input) == Err::<
                (BitfieldAttribute, Seq<FieldModel>, Seq<FieldModel>),
                BitfieldError,
            >(e),
        },
{
    parse_bitfield(args, input)
}


/// The value of a bitfield while it is built.
#[derive(Debug, Copy, Clone, PartialEq, Eq, Structural)]
pub struct BitfieldBuilder {
    /// The storage of the bitfield.
    pub this: u128,
}

/// Every field of an accepted layout is a valid descriptor, and the assignments of a rule
/// name fields of the layout.
pub proof fn lemma_layout_fields(attribute: BitfieldAttribute, fields: Seq<FieldModel>, rule: Rule)
    requires
        valid_layout(attribute, fields),
    ensures
        valid_fields(fields),
        assignments_in_range(
            crate::assignments::rule_assignments(rule, fields, fields.len() as int),
            fields.len(),
        ),
{
    assert forall|i: int| 0 <= i < fields.len() implies valid_field(#[trigger] fields[i]) by {
        lemma_field_place(attribute, fields, i);
    }
    lemma_layout_count(attribute, fields);
    if fields.len() > 0 {
        lemma_rule_assignments(rule, fields, fields.len() as int, 0);
    }
}

/// Computes [`blocks_at`].
fn field_blocks(field: &BitfieldField, index: usize, writing: bool) -> (r: bool)
    ensures
        r == blocks_at(field@, index as int, writing),
{
    let blocks = if writing {
        !does_field_have_setter(field)
    } else {
        !does_field_have_getter(field) && !field.padding
    };
    let start: usize = field.offset as usize;
    let width: usize = field.bits as usize;
    blocks && start <= index && index - start < width
}

impl GeneratedBitfield {
    /// The input as the fields are taken from it.
    fn ingest(&self, bits: u128) -> (input: u128)
        ensures
            input == ingested(self.attribute, bits),
    {
        if self.attribute.from_endian == Endian::Little {
            swap_bytes_of(bits, self.attribute.bits)
        } else {
            bits
        }
    }

    fn run(&self, assignments: &Vec<FieldAssignment>, input: u128, storage: &mut u128)
        requires
            self.valid(),
            assignments_in_range(assignments@, self.fields@.len()),
        ensures
            *final(storage) == apply_assignments(
                models(self.fields@),
                assignments@,
                input,
                *old(storage),
            ),
    {
        proof {
            lemma_layout_fields(self.attribute, models(self.fields@), Rule::Defaults);
        }
        run_assignments(&self.fields, assignments, input, storage);
    }

    /// The storage of a new bitfield: every field holds its default value, or zero
    /// without one.
    pub fn new(&self) -> (storage: u128)
        requires
            self.valid(),
        ensures
            storage == new_storage(models(self.fields@)),
    {
        let assignments = generate_new_function_tokens(&self.fields);
        proof {
            lemma_layout_fields(self.attribute, models(self.fields@), Rule::Defaults);
        }
        let mut storage: u128 = 0;
        self.run(&assignments, 0, &mut storage);
        storage
    }

    /// The storage of a new bitfield without default values: padding holds its default
    /// value, every other field zero.
    ///
    /// A field of a custom type holds the bits that the custom type gives for zero, as
    /// its declaration states them.
    pub fn new_without_defaults(&self) -> (storage: u128)
        requires
            self.valid(),
        ensures
            storage == new_without_defaults_storage(models(self.fields@)),
    {
        let assignments = generate_new_without_defaults_function_tokens(&self.fields);
        proof {
            lemma_layout_fields(
                self.attribute,
                models(self.fields@),
                Rule::Zeros { include_read_only: true },
            );
        }
        let mut storage: u128 = 0;
        self.run(&assignments, 0, &mut storage);
        storage
    }

    /// The storage of the bitfield that the conversion from the backing integer gives: the
    /// same as `from_bits`, the bytes of a little-endian input reversed first.
    ///
    /// A field of a custom type holds the bits of the input as they are: the conversions
    /// of the custom type are the caller's.
    pub fn from(&self, bits: u128) -> (storage: u128)
        requires
            self.valid(),
        ensures
            storage == from_bits_storage(self.attribute, models(self.fields@), bits),
    {
        let function = generate_from_bitfield_type_for_bitfield_implementation_tokens(
            &self.fields,
            &self.attribute,
        );
        proof {
            lemma_layout_fields(
                self.attribute,
                models(self.fields@),
                Rule::FromBits { respect_defaults: false, include_read_only: true },
            );
        }
        let input = self.ingest(bits);
        let mut storage: u128 = 0;
        self.run(&function.assignments, input, &mut storage);
        storage
    }

    /// The storage of the bitfield made from the bits of the backing integer: every field
    /// but padding, read-only ones too, holds the bits of the input; padding holds its
    /// default value.
    pub fn from_bits(&self, bits: u128) -> (storage: u128)
        requires
            self.valid(),
        ensures
            storage == from_bits_storage(self.attribute, models(self.fields@), bits),
    {
        let function = generate_from_bits_function_tokens(&self.fields, &self.attribute);
        proof {
            lemma_layout_fields(
                self.attribute,
                models(self.fields@),
                Rule::FromBits { respect_defaults: false, include_read_only: true },
            );
        }
        let input = self.ingest(bits);
        let mut storage: u128 = 0;
        self.run(&function.assignments, input, &mut storage);
        storage
    }

    /// The storage of the bitfield made from the bits of the backing integer, but for the
    /// fields with a default value, which hold it.
    pub fn from_bits_with_defaults(&self, bits: u128) -> (storage: u128)
        requires
            self.valid(),
        ensures
            storage == from_bits_with_defaults_storage(
                self.attribute,
                models(self.fields@),
                bits,
            ),
    {
        let function = generate_from_bits_with_defaults_function_tokens(
            &self.fields,
            &self.attribute,
        );
        proof {
            lemma_layout_fields(
                self.attribute,
                models(self.fields@),
                Rule::FromBits { respect_defaults: true, include_read_only: true },
            );
        }
        let input = self.ingest(bits);
        let mut storage: u128 = 0;
        self.run(&function.assignments, input, &mut storage);
        storage
    }

    /// The bits of the bitfield as a backing integer.
    pub fn into_bits(&self, storage: u128) -> (bits: u128)
        ensures
            bits == into_bits_value(self.attribute, storage),
    {
        let function = generate_into_bits_function_tokens(&self.attribute);
        if function.swap_bytes {
            swap_bytes_of(storage, self.attribute.bits)
        } else {
            storage
        }
    }

    /// Sets the writable fields of the bitfield from the bits: read-only fields and
    /// padding keep what they hold.
    pub fn set_bits(&self, storage: &mut u128, bits: u128)
        requires
            self.valid(),
        ensures
            *final(storage) == set_bits_storage(models(self.fields@), *old(storage), bits, false),
    {
        let assignments = generate_set_bits_function_tokens(&self.fields);
        proof {
            lemma_layout_fields(
                self.attribute,
                models(self.fields@),
                Rule::FromBits { respect_defaults: false, include_read_only: false },
            );
        }
        self.run(&assignments, bits, storage);
    }

    /// Sets the writable fields of the bitfield from the bits, but those with a default
    /// value to it.
    pub fn set_bits_with_defaults(&self, storage: &mut u128, bits: u128)
        requires
            self.valid(),
        ensures
            *final(storage) == set_bits_storage(models(self.fields@), *old(storage), bits, true),
    {
        let assignments = generate_set_bits_with_defaults_function_tokens(&self.fields);
        proof {
            lemma_layout_fields(
                self.attribute,
                models(self.fields@),
                Rule::FromBits { respect_defaults: true, include_read_only: false },
            );
        }
        self.run(&assignments, bits, storage);
    }

    /// Clears the writable fields of the bitfield: read-only fields keep what they hold,
    /// and padding its default value.
    pub fn clear_bits(&self, storage: &mut u128)
        requires
            self.valid(),
        ensures
            *final(storage) == clear_bits_storage(models(self.fields@), *old(storage)),
    {
        let assignments = generate_clear_bits_function_tokens(&self.fields);
        proof {
            lemma_layout_fields(
                self.attribute,
                models(self.fields@),
                Rule::Zeros { include_read_only: false },
            );
        }
        self.run(&assignments, 0, storage);
    }

    /// Clears the writable fields of the bitfield, those with a default value to it.
    pub fn clear_bits_with_defaults(&self, storage: &mut u128)
        requires
            self.valid(),
        ensures
            *final(storage) == clear_bits_with_defaults_storage(
                models(self.fields@),
                *old(storage),
            ),
    {
        let assignments = generate_clear_bits_preserve_defaults_function_tokens(&self.fields);
        proof {
            lemma_layout_fields(
                self.attribute,
                models(self.fields@),
                Rule::FromBits { respect_defaults: true, include_read_only: false },
            );
        }
        self.run(&assignments, 0, storage);
    }

    /// The index of the first field of the given name.
    pub fn field_index(&self, name: &str) -> (r: Option<usize>)
        ensures
            match r {
                Some(i) => find_field(models(self.fields@), name@, 0) == Some(i as int) && i
                    < self.fields@.len(),
                None => find_field(models(self.fields@), name@, 0).is_none(),
            },
    {
        let mut i: usize = 0;
        while i < self.fields.len()
            invariant
                i <= self.fields.len(),
                find_field(models(self.fields@), name@, 0) == find_field(
                    models(self.fields@),
                    name@,
                    i as int,
                ),
            decreases self.fields.len() - i,
        {
            assert(models(self.fields@)[i as int] == self.fields@[i as int]@);
            if crate::text::str_equals(self.fields[i].name.as_str(), name) {
                return Some(i);
            }
            i += 1;
        }
        None
    }

    /// What the getter of the field of the given name returns; nothing where the field
    /// has no getter.
    ///
    /// Of a field of a custom type the bits are returned as they are, as an unsigned
    /// value: the conversion of the custom type from bits is the caller's to apply.
    pub fn get(&self, storage: u128, name: &str) -> (r: Option<FieldValue>)
        requires
            self.valid(),
        ensures
            r == match getter_field(models(self.fields@), name@) {
                Some(field) => Some(read_value(field, storage)),
                None => None,
            },
    {
        match self.field_index(name) {
            Some(i) => {
                let field = &self.fields[i];
                assert(models(self.fields@)[i as int] == field@);
                proof {
                    lemma_field_place(self.attribute, models(self.fields@), i as int);
                }
                if does_field_have_getter(field) {
                    Some(get_field(field, storage))
                } else {
                    None
                }
            },
            None => None,
        }
    }

    /// Sets the field of the given name as its setter does: what does not fit into the
    /// field is cut off. Returns whether the field has a setter; without one nothing
    /// changes.
    ///
    /// For a field of a custom type the value is the bits that the custom type converts
    /// into: that conversion is the caller's to apply before the call.
    pub fn set(&self, storage: &mut u128, name: &str, value: FieldValue) -> (done: bool)
        requires
            self.valid(),
        ensures
            match setter_field(models(self.fields@), name@) {
                Some(field) => done && *final(storage) == write_value(field, *old(storage), value),
                None => !done && *final(storage) == *old(storage),
            },
    {
        match self.field_index(name) {
            Some(i) => {
                let field = &self.fields[i];
                assert(models(self.fields@)[i as int] == field@);
                proof {
                    lemma_field_place(self.attribute, models(self.fields@), i as int);
                }
                if does_field_have_setter(field) {
                    set_field(field, storage, value);
                    true
                } else {
                    false
                }
            },
            None => false,
        }
    }

    /// Sets the field of the given name as its checked setter does: a value that the
    /// field cannot hold is refused. Whenever an error is returned, nothing changes.
    ///
    /// For a field of a custom type the value is the bits that the custom type converts
    /// into: that conversion is the caller's to apply before the call.
    pub fn checked_set(&self, storage: &mut u128, name: &str, value: FieldValue) -> (r: Result<
        (),
        OperationError,
    >)
        requires
            self.valid(),
        ensures
            match setter_field(models(self.fields@), name@) {
                Some(field) => if exceeds_field(field, value) {
                    r == Err::<(), OperationError>(OperationError::ValueTooLargeForField)
                        && *final(storage) == *old(storage)
                } else {
                    r == Ok::<(), OperationError>(()) && *final(storage) == write_value(
                        field,
                        *old(storage),
                        value,
                    )
                },
                None => r == Err::<(), OperationError>(OperationError::NoSuchSetter)
                    && *final(storage) == *old(storage),
            },
    {
        match self.field_index(name) {
            Some(i) => {
                let field = &self.fields[i];
                assert(models(self.fields@)[i as int] == field@);
                proof {
                    lemma_field_place(self.attribute, models(self.fields@), i as int);
                }
                if does_field_have_setter(field) {
                    checked_set_field(field, storage, value)
                } else {
                    Err(OperationError::NoSuchSetter)
                }
            },
            None => Err(OperationError::NoSuchSetter),
        }
    }

    /// Whether the bit at `index` lies in a field that may not be read, or that may not
    /// be written.
    fn blocked(&self, index: usize, writing: bool) -> (r: bool)
        ensures
            r == (if writing {
                write_blocked(models(self.fields@), index as int)
            } else {
                read_blocked(models(self.fields@), index as int)
            }),
    {
        let ghost fields = models(self.fields@);
        let mut i: usize = 0;
        while i < self.fields.len()
            invariant
                i <= self.fields.len(),
                fields == models(self.fields@),
                forall|k: int| 0 <= k < i ==> !blocks_at(#[trigger] fields[k], index as int, writing),
            decreases self.fields.len() - i,
        {
            let field = &self.fields[i];
            assert(fields[i as int] == field@);
            if field_blocks(field, index, writing) {
                return true;
            }
            i += 1;
        }
        false
    }

    /// Returns a bit from the given index. Returns an error for out-of-bounds and fields
    /// without read access. An index equal to the width of the bitfield is out of bounds.
    pub fn checked_get_bit(&self, storage: u128, index: usize) -> (r: Result<bool, OperationError>)
        requires
            self.valid(),
        ensures
            r == checked_get_bit_value(self.attribute, models(self.fields@), storage, index),
    {
        if index >= self.attribute.bits as usize {
            return Err(OperationError::IndexOutOfBounds);
        }
        if self.blocked(index, false) {
            return Err(OperationError::NoReadAccessAtBit);
        }
        Ok(extract_bits(storage, index as u8, 1) != 0)
    }

    /// Returns a bit from the given index. Returns false for out-of-bounds and fields
    /// without read access.
    pub fn get_bit(&self, storage: u128, index: usize) -> (r: bool)
        requires
            self.valid(),
        ensures
            r == match checked_get_bit_value(
                self.attribute,
                models(self.fields@),
                storage,
                index,
            ) {
                Ok(bit) => bit,
                Err(_) => false,
            },
    {
        match self.checked_get_bit(storage, index) {
            Ok(bit) => bit,
            Err(_) => false,
        }
    }

    /// Sets a bit at given index with the given value. Returns an error for out-of-bounds
    /// and fields without write access, and changes nothing then.
    pub fn checked_set_bit(&self, storage: &mut u128, index: usize, bit: bool) -> (r: Result<
        (),
        OperationError,
    >)
        requires
            self.valid(),
        ensures
            match checked_set_bit_storage(
                self.attribute,
                models(self.fields@),
                *old(storage),
                index,
                bit,
            ) {
                Ok(after) => r == Ok::<(), OperationError>(()) && *final(storage) == after,
                Err(e) => r == Err::<(), OperationError>(e) && *final(storage) == *old(storage),
            },
    {
        if index >= self.attribute.bits as usize {
            return Err(OperationError::IndexOutOfBounds);
        }
        if self.blocked(index, true) {
            return Err(OperationError::NoWriteAccessAtBit);
        }
        *storage = insert_bits(
            *storage,
            index as u8,
            1,
            if bit {
                1
            } else {
                0
            },
        );
        Ok(())
    }

    /// Sets a bit at given index with the given value. Is no-op for out-of-bounds and
    /// fields without write access.
    pub fn set_bit(&self, storage: &mut u128, index: usize, bit: bool)
        requires
            self.valid(),
        ensures
            *final(storage) == match checked_set_bit_storage(
                self.attribute,
                models(self.fields@),
                *old(storage),
                index,
                bit,
            ) {
                Ok(after) => after,
                Err(_) => *old(storage),
            },
    {
        let _ = self.checked_set_bit(storage, index, bit);
    }

    /// What the debug formatting shows: for each field, from the most significant one
    /// down, its index and its bits.
    pub fn debug_values(&self, storage: u128) -> (r: Vec<(usize, u128)>)
        requires
            self.valid(),
        ensures
            r@.len() == self.fields@.len(),
            forall|k: int|
                0 <= k < r@.len() ==> {
                    let shown = debug_fields(self.attribute, models(self.fields@))[k];
                    (#[trigger] r@[k]).0 == shown.field && r@[k].1 == extract(
                        storage,
                        shown.offset as u8,
                        shown.bits as u8,
                    )
                },
    {
        let shown = generate_debug_implementation(&self.attribute, &self.fields);
        let mut r: Vec<(usize, u128)> = Vec::new();
        let mut k: usize = 0;
        while k < shown.len()
            invariant
                self.valid(),
                shown@ == debug_fields(self.attribute, models(self.fields@)),
                k <= shown.len(),
                r@.len() == k,
                forall|j: int|
                    0 <= j < k ==> (#[trigger] r@[j]).0 == shown@[j].field && r@[j].1 == extract(
                        storage,
                        shown@[j].offset as u8,
                        shown@[j].bits as u8,
                    ),
            decreases shown.len() - k,
        {
            let entry = shown[k];
            proof {
                let index = if self.attribute.bit_order == BitOrder::Lsb {
                    self.fields@.len() - 1 - k
                } else {
                    k as int
                };
                lemma_field_place(self.attribute, models(self.fields@), index);
            }
            r.push((entry.field, extract_bits(storage, entry.offset as u8, entry.bits as u8)));
            k += 1;
        }
        r
    }

    /// The debug formatting of the bitfield.
    pub fn debug_string(&self, storage: u128) -> (r: String)
        requires
            self.valid(),
        ensures
            r@ == debug_text(self.name@, self.attribute, models(self.fields@), storage),
    {
        let shown = generate_debug_implementation(&self.attribute, &self.fields);
        let mut r = self.name.clone();
        if shown.len() == 0 {
            return r;
        }
        r = r.concat(" { ");
        let mut entries = String::new();
        let mut k: usize = 0;
        while k < shown.len()
            invariant
                self.valid(),
                shown@ == debug_fields(self.attribute, models(self.fields@)),
                shown@.len() == self.fields@.len(),
                k <= shown.len(),
                entries@ == debug_entries(self.attribute, models(self.fields@), storage, k as int),
            decreases shown.len() - k,
        {
            let entry = shown[k];
            proof {
                let index = if self.attribute.bit_order == BitOrder::Lsb {
                    self.fields@.len() - 1 - k
                } else {
                    k as int
                };
                lemma_field_place(self.attribute, models(self.fields@), index);
                assert(entry.field == index);
            }
            let field = &self.fields[entry.field];
            assert(models(self.fields@)[entry.field as int] == field@);
            let bits = extract_bits(storage, entry.offset as u8, entry.bits as u8);
            if k > 0 {
                entries = entries.concat(", ");
            } else {
                assert(entries@ + field.name@ =~= Seq::<char>::empty() + field.name@);
            }
            entries = entries.concat(field.name.as_str()).concat(": ").concat(
                crate::text::decimal(bits).as_str(),
            );
            k += 1;
        }
        r.concat(entries.as_str()).concat(" }")
    }

    /// A builder whose fields hold their default values.
    pub fn builder_new(&self) -> (builder: BitfieldBuilder)
        requires
            self.valid(),
        ensures
            builder.this == new_storage(models(self.fields@)),
    {
        BitfieldBuilder { this: self.new() }
    }

    /// A builder whose fields hold zero, but for padding, which holds its default value.
    pub fn builder_new_without_defaults(&self) -> (builder: BitfieldBuilder)
        requires
            self.valid(),
        ensures
            builder.this == new_without_defaults_storage(models(self.fields@)),
    {
        BitfieldBuilder { this: self.new_without_defaults() }
    }
}

impl BitfieldBuilder {
    /// Sets the field of the given name, as the setter of the field does; a field without
    /// a setter is left as it is.
    pub fn with(self, bitfield: &GeneratedBitfield, name: &str, value: FieldValue) -> (r: Self)
        requires
            bitfield.valid(),
        ensures
            r.this == match setter_field(models(bitfield.fields@), name@) {
                Some(field) => write_value(field, self.this, value),
                None => self.this,
            },
    {
        let mut this = self.this;
        let _ = bitfield.set(&mut this, name, value);
        BitfieldBuilder { this }
    }

    /// Sets the field of the given name, as the checked setter of the field does.
    pub fn checked_with(self, bitfield: &GeneratedBitfield, name: &str, value: FieldValue) -> (r:
        Result<Self, OperationError>)
        requires
            bitfield.valid(),
        ensures
            r == match setter_field(models(bitfield.fields@), name@) {
                Some(field) => if exceeds_field(field, value) {
                    Err::<Self, OperationError>(OperationError::ValueTooLargeForField)
                } else {
                    Ok::<Self, OperationError>(
                        BitfieldBuilder { this: write_value(field, self.this, value) },
                    )
                },
                None => Err::<Self, OperationError>(OperationError::NoSuchSetter),
            },
    {
        let mut this = self.this;
        match bitfield.checked_set(&mut this, name, value) {
            Ok(()) => Ok(BitfieldBuilder { this }),
            Err(e) => Err(e),
        }
    }

    /// Builds a bitfield instance from the builder: its storage.
    pub fn build(self) -> (storage: u128)
        ensures
            storage == self.this,
    {
        self.this
    }
}

} // verus!
