//! The operations that are generated for a bitfield: which fields get a constant, a
//! getter, a setter or a builder method, under which name, and what each of them does.

use vstd::prelude::*;
use crate::bitfield_attribute::{BitOrder, BitfieldAttribute};
use crate::bitfield_field::{BitfieldField, FieldAccess, FieldModel, FieldType};
use crate::bits::{extract, extract_bits, field_mask, insert, insert_bits, mask};
use crate::error::OperationError;
use crate::layout::models;
use crate::operations::{
    bits_of_type, bits_of_value, does_field_have_getter, does_field_have_setter,
    fills_signed_type, has_getter, has_setter, is_signed_type, lemma_fits_signed, lemma_read_fits, sign_extend,
    sign_extend_bits, signed_of_value, valid_field, value_bits, value_signed, FieldValue,
};
use crate::text::{ascii_uppercase, uppercase};
use crate::types::{is_signed_integer, type_bits, IntegerType};

verus! {

/// How the bits of a field are named in the documentation of its getter and setter.
#[derive(Debug, Copy, Clone, PartialEq, Eq, Structural)]
pub enum BitsDocumentation {
    /// As one bit.
    SingleBit,
    /// As a range from the first bit up to the last.
    Ascending,
    /// As a range from the last bit down to the first.
    Descending,
    /// As a range that is extended by its sign bit.
    SignExtended,
}

/// The constants of a field: its width and its offset.
#[derive(Debug, Copy, Clone, PartialEq, Eq, Structural)]
pub struct FieldConstants {
    /// The index of the field.
    pub field: usize,
    /// The value of the constant `<FIELD>_BITS`.
    pub bits: u32,
    /// The value of the constant `<FIELD>_OFFSET`.
    pub offset: u32,
}

/// What a getter does with the bits of its field.
#[derive(Debug, Copy, Clone, PartialEq, Eq, Structural)]
pub enum GetterKind {
    /// It hands them to the conversion of the custom type.
    Custom,
    /// It tests whether they are not zero.
    Bool,
    /// It casts them to the integer type of the field.
    Integer,
}

/// The getter of a field.
#[derive(Debug, Copy, Clone, PartialEq, Eq, Structural)]
pub struct FieldGetter {
    /// The index of the field.
    pub field: usize,
    /// The type of the field, which the bits are cast to.
    pub integer_type: IntegerType,
    /// What the getter does with the bits.
    pub kind: GetterKind,
    /// By how many bits the value is shifted up and back down in the type of the field to
    /// extend its sign, if it is.
    pub sign_extend_shift: Option<u8>,
    /// The first bit of the field.
    pub first_bit: u8,
    /// The last bit of the field.
    pub last_bit: u8,
    /// How the documentation names the bits.
    pub documentation: BitsDocumentation,
    /// Whether the getter of the inverted bits is generated too.
    pub inverted: bool,
}

/// With what a checked setter compares the value.
#[derive(Debug, Copy, Clone, PartialEq, Eq, Structural)]
pub enum Comparison {
    /// With nothing.
    Nothing,
    /// With the mask, in the type of the field, which holds the mask.
    InFieldType,
    /// With the mask, the bits of the custom type taken in the backing type.
    InBackingType,
}

/// The body of a setter.
#[derive(Debug, Copy, Clone, PartialEq, Eq, Structural)]
pub struct SetterImplementation {
    /// The width of the field.
    pub bits: u32,
    /// The offset of the field.
    pub offset: u32,
    /// Whether width and offset are written as the constants of the field.
    pub named_constants: bool,
    /// Whether the value is converted into bits by the custom type.
    pub custom: bool,
    /// Whether the body returns a result.
    pub checked: bool,
    /// With what the value is compared before it is written.
    pub comparison: Comparison,
}

/// The setters of a field: the one that cuts the value to the field, and the checked one.
#[derive(Debug, Copy, Clone, PartialEq, Eq, Structural)]
pub struct FieldSetter {
    /// The index of the field.
    pub field: usize,
    /// The type of the field, in which the checked setter compares.
    pub integer_type: IntegerType,
    /// The first bit of the field.
    pub first_bit: u8,
    /// The last bit of the field.
    pub last_bit: u8,
    /// How the documentation names the bits.
    pub documentation: BitsDocumentation,
    /// The body of the setter.
    pub setter: SetterImplementation,
    /// The body of the checked setter.
    pub checked_setter: SetterImplementation,
}

/// The methods of the builder for one field.
#[derive(Debug, Copy, Clone, PartialEq, Eq, Structural)]
pub struct BuilderSetter {
    /// The index of the field.
    pub field: usize,
    /// The first bit that the documentation names.
    pub first_bit: u8,
    /// The last bit that the documentation names: the bit behind the field.
    pub end_bit: u8,
}

/// The bits of a field that a bit operation does not touch.
#[derive(Debug, Copy, Clone, PartialEq, Eq, Structural)]
pub struct BlockedBits {
    /// The first bit.
    pub start: usize,
    /// The bit behind the last.
    pub end: usize,
}

/// One field in the debug formatting.
#[derive(Debug, Copy, Clone, PartialEq, Eq, Structural)]
pub struct DebugField {
    /// The index of the field.
    pub field: usize,
    /// The width of the field.
    pub bits: u32,
    /// The offset of the field.
    pub offset: u32,
}

impl FieldGetter {
    /// The width of the field.
    pub open spec fn bits(&self) -> u8 {
        (self.last_bit - self.first_bit + 1) as u8
    }

    /// Whether the getter is one of a field that lies inside 128 bits and that its type,
    /// where it is an integer, can hold.
    pub open spec fn well_formed(&self) -> bool {
        &&& self.first_bit <= self.last_bit < 128
        &&& self.kind == GetterKind::Integer ==> type_bits(self.integer_type).is_some()
            && self.bits() <= type_bits(self.integer_type).unwrap()
    }

    /// What the bits `raw` of the field become: the bits themselves for a custom type,
    /// whether they are not zero for a boolean, and for an integer the cast to its type,
    /// with the sign extended where the getter shifts or the field is as wide as a
    /// signed type.
    pub open spec fn cast(&self, raw: u128) -> FieldValue {
        match self.kind {
            GetterKind::Custom => FieldValue::Unsigned(raw),
            GetterKind::Bool => FieldValue::Bool(raw != 0),
            GetterKind::Integer => if is_signed_integer(self.integer_type) {
                if self.sign_extend_shift.is_some() || Some(self.bits()) == type_bits(
                    self.integer_type,
                ) {
                    FieldValue::Signed(sign_extend(raw, self.bits()))
                } else {
                    FieldValue::Signed(raw as i128)
                }
            } else {
                FieldValue::Unsigned(raw)
            },
        }
    }

    /// What the getter returns.
    pub open spec fn value(&self, storage: u128) -> FieldValue {
        self.cast(extract(storage, self.first_bit, self.bits()))
    }

    /// What the getter of the inverted bits returns.
    pub open spec fn inverted_value(&self, storage: u128) -> FieldValue {
        self.cast(!(storage >> (self.first_bit as u128)) & mask(self.bits()))
    }

    fn cast_bits(&self, raw: u128) -> (r: FieldValue)
        requires
            self.well_formed(),
            raw <= mask(self.bits()),
        ensures
            r == self.cast(raw),
    {
        let bits: u8 = self.last_bit - self.first_bit + 1;
        match self.kind {
            GetterKind::Custom => FieldValue::Unsigned(raw),
            GetterKind::Bool => FieldValue::Bool(raw != 0),
            GetterKind::Integer => {
                if is_signed_type(self.integer_type) {
                    let full = match bits_of_type(self.integer_type) {
                        Some(natural) => natural == bits,
                        None => false,
                    };
                    if self.sign_extend_shift.is_some() || full {
                        FieldValue::Signed(sign_extend_bits(raw, bits))
                    } else {
                        proof {
                            lemma_fits_signed(raw, bits);
                        }
                        FieldValue::Signed(raw as i128)
                    }
                } else {
                    FieldValue::Unsigned(raw)
                }
            },
        }
    }

    /// Evaluates the getter on a storage.
    pub fn read(&self, storage: u128) -> (r: FieldValue)
        requires
            self.well_formed(),
        ensures
            r == self.value(storage),
    {
        let bits: u8 = self.last_bit - self.first_bit + 1;
        proof {
            lemma_read_fits(storage, self.first_bit, bits);
        }
        self.cast_bits(extract_bits(storage, self.first_bit, bits))
    }

    /// Evaluates the getter of the inverted bits on a storage.
    pub fn read_inverted(&self, storage: u128) -> (r: FieldValue)
        requires
            self.well_formed(),
        ensures
            r == self.inverted_value(storage),
    {
        let bits: u8 = self.last_bit - self.first_bit + 1;
        proof {
            lemma_read_fits(storage, self.first_bit, bits);
        }
        self.cast_bits(!(storage >> (self.first_bit as u128)) & field_mask(bits))
    }
}

impl FieldSetter {
    /// Whether the setters are those of a field that lies inside 128 bits.
    pub open spec fn well_formed(&self) -> bool {
        &&& 1 <= self.setter.bits
        &&& self.setter.offset + self.setter.bits <= 128
        &&& self.checked_setter.bits == self.setter.bits
        &&& self.checked_setter.offset == self.setter.offset
    }

    /// The storage after the setter: the low bits of the value in the place of the field.
    pub open spec fn stored(&self, storage: u128, value: FieldValue) -> u128 {
        insert(storage, self.setter.offset as u8, self.setter.bits as u8, value_bits(value))
    }

    /// Whether the checked setter refuses the value.
    pub open spec fn refuses(&self, value: FieldValue) -> bool {
        match self.checked_setter.comparison {
            Comparison::Nothing => false,
            Comparison::InBackingType => value_bits(value) > mask(self.setter.bits as u8),
            Comparison::InFieldType => if is_signed_integer(self.integer_type) {
                value_signed(value) > mask(self.setter.bits as u8)
            } else {
                value_bits(value) > mask(self.setter.bits as u8)
            },
        }
    }

    /// Evaluates the setter on a storage.
    pub fn write(&self, storage: &mut u128, value: FieldValue)
        requires
            self.well_formed(),
        ensures
            *final(storage) == self.stored(*old(storage), value),
    {
        *storage = insert_bits(
            *storage,
            self.setter.offset as u8,
            self.setter.bits as u8,
            bits_of_value(value),
        );
    }

    /// Evaluates the checked setter on a storage: a value that is refused changes nothing.
    pub fn checked_write(&self, storage: &mut u128, value: FieldValue) -> (r: Result<
        (),
        OperationError,
    >)
        requires
            self.well_formed(),
        ensures
            self.refuses(value) ==> r == Err::<(), OperationError>(
                OperationError::ValueTooLargeForField,
            ) && *final(storage) == *old(storage),
            !self.refuses(value) ==> r == Ok::<(), OperationError>(()) && *final(storage)
                == self.stored(*old(storage), value),
    {
        let bits: u8 = self.setter.bits as u8;
        let m = field_mask(bits);
        let refuses = match self.checked_setter.comparison {
            Comparison::Nothing => false,
            Comparison::InBackingType => bits_of_value(value) > m,
            Comparison::InFieldType => {
                if is_signed_type(self.integer_type) {
                    let v = signed_of_value(value);
                    if bits <= 127 {
                        proof {
                            lemma_fits_signed(m, bits);
                        }
                        v > m as i128
                    } else {
                        false
                    }
                } else {
                    bits_of_value(value) > m
                }
            },
        };
        if refuses {
            return Err(OperationError::ValueTooLargeForField);
        }
        self.write(storage, value);
        Ok(())
    }
}

/// The constants of the field at `index`.
pub open spec fn constants_of(field: FieldModel, index: int) -> FieldConstants {
    FieldConstants { field: index as usize, bits: field.bits as u32, offset: field.offset as u32 }
}

/// How the documentation names the bits of a field that is not extended by its sign.
pub open spec fn plain_documentation(attribute: BitfieldAttribute, field: FieldModel) -> BitsDocumentation {
    if field.bits == 1 {
        BitsDocumentation::SingleBit
    } else if attribute.bit_order == BitOrder::Msb {
        BitsDocumentation::Descending
    } else {
        BitsDocumentation::Ascending
    }
}

/// The getter of the field at `index`.
pub open spec fn getter_of(
    attribute: BitfieldAttribute,
    field: FieldModel,
    index: int,
    inverted: bool,
) -> FieldGetter {
    let integer = field.field_type != FieldType::CustomFieldType && field.integer_type
        != IntegerType::Bool;
    FieldGetter {
        field: index as usize,
        integer_type: field.integer_type,
        kind: if field.field_type == FieldType::CustomFieldType {
            GetterKind::Custom
        } else if field.integer_type == IntegerType::Bool {
            GetterKind::Bool
        } else {
            GetterKind::Integer
        },
        sign_extend_shift: if integer && !field.unsigned {
            Some((type_bits(field.integer_type).unwrap() - field.bits) as u8)
        } else {
            None
        },
        first_bit: field.offset,
        last_bit: (field.offset + field.bits - 1) as u8,
        documentation: if field.field_type != FieldType::CustomFieldType && field.integer_type
            == IntegerType::Bool {
            BitsDocumentation::SingleBit
        } else if integer && !field.unsigned && field.bits != 1 {
            BitsDocumentation::SignExtended
        } else {
            plain_documentation(attribute, field)
        },
        inverted,
    }
}

/// The body of a setter of the field. The checked setter of a boolean field, and that of
/// a signed field as wide as its type, compares with nothing: every value of the type
/// fits.
pub open spec fn setter_implementation_of(field: FieldModel, check_value_bit_size: bool) -> SetterImplementation {
    SetterImplementation {
        bits: field.bits as u32,
        offset: field.offset as u32,
        named_constants: field.access == FieldAccess::ReadOnly,
        custom: field.field_type == FieldType::CustomFieldType,
        checked: check_value_bit_size,
        comparison: if !check_value_bit_size {
            Comparison::Nothing
        } else if field.field_type == FieldType::CustomFieldType {
            Comparison::InBackingType
        } else if field.integer_type == IntegerType::Bool || fills_signed_type(field) {
            Comparison::Nothing
        } else {
            Comparison::InFieldType
        },
    }
}

/// The setters of the field at `index`.
pub open spec fn setter_of(attribute: BitfieldAttribute, field: FieldModel, index: int) -> FieldSetter {
    FieldSetter {
        field: index as usize,
        integer_type: field.integer_type,
        first_bit: field.offset,
        last_bit: (field.offset + field.bits - 1) as u8,
        documentation: plain_documentation(attribute, field),
        setter: setter_implementation_of(field, false),
        checked_setter: setter_implementation_of(field, true),
    }
}

/// The methods of the builder for the field at `index`.
pub open spec fn builder_setter_of(field: FieldModel, index: int) -> BuilderSetter {
    BuilderSetter {
        field: index as usize,
        first_bit: field.offset,
        end_bit: (field.offset + field.bits) as u8,
    }
}

/// The bits of the field.
pub open spec fn blocked_bits_of(field: FieldModel) -> BlockedBits {
    BlockedBits { start: field.offset as usize, end: (field.offset + field.bits) as usize }
}

/// The field at `index` in the debug formatting.
pub open spec fn debug_field_of(field: FieldModel, index: int) -> DebugField {
    DebugField { field: index as usize, bits: field.bits as u32, offset: field.offset as u32 }
}

/// The constants of the first `count` fields: of each field that has a getter or a
/// setter, in the order of the fields.
pub open spec fn field_constants(fields: Seq<FieldModel>, count: int) -> Seq<FieldConstants>
    decreases count,
{
    if count <= 0 {
        Seq::empty()
    } else {
        let before = field_constants(fields, count - 1);
        let field = fields[count - 1];
        if has_getter(field) || has_setter(field) {
            before.push(constants_of(field, count - 1))
        } else {
            before
        }
    }
}

/// The getters of the first `count` fields: of each field that has one, in the order of
/// the fields.
pub open spec fn field_getters(
    attribute: BitfieldAttribute,
    fields: Seq<FieldModel>,
    inverted: bool,
    count: int,
) -> Seq<FieldGetter>
    decreases count,
{
    if count <= 0 {
        Seq::empty()
    } else {
        let before = field_getters(attribute, fields, inverted, count - 1);
        let field = fields[count - 1];
        if has_getter(field) {
            before.push(getter_of(attribute, field, count - 1, inverted))
        } else {
            before
        }
    }
}

/// The setters of the first `count` fields: of each field that has one, in the order of
/// the fields.
pub open spec fn field_setters(attribute: BitfieldAttribute, fields: Seq<FieldModel>, count: int) -> Seq<
    FieldSetter,
>
    decreases count,
{
    if count <= 0 {
        Seq::empty()
    } else {
        let before = field_setters(attribute, fields, count - 1);
        let field = fields[count - 1];
        if has_setter(field) {
            before.push(setter_of(attribute, field, count - 1))
        } else {
            before
        }
    }
}

/// The builder methods of the first `count` fields: of each field that has a setter, in
/// the order of the fields.
pub open spec fn builder_setters(fields: Seq<FieldModel>, count: int) -> Seq<BuilderSetter>
    decreases count,
{
    if count <= 0 {
        Seq::empty()
    } else {
        let before = builder_setters(fields, count - 1);
        let field = fields[count - 1];
        if has_setter(field) {
            before.push(builder_setter_of(field, count - 1))
        } else {
            before
        }
    }
}

/// Whether a bit of the field may not be read: the field has no getter and is no padding.
pub open spec fn blocks_reading(field: FieldModel) -> bool {
    !has_getter(field) && !field.padding
}

/// Whether a bit of the field may not be written: the field has no setter.
pub open spec fn blocks_writing(field: FieldModel) -> bool {
    !has_setter(field)
}

/// The bits among the first `count` fields that may not be read, or that may not be
/// written, in the order of the fields.
pub open spec fn blocked_bits(fields: Seq<FieldModel>, writing: bool, count: int) -> Seq<BlockedBits>
    decreases count,
{
    if count <= 0 {
        Seq::empty()
    } else {
        let before = blocked_bits(fields, writing, count - 1);
        let field = fields[count - 1];
        if (writing && blocks_writing(field)) || (!writing && blocks_reading(field)) {
            before.push(blocked_bits_of(field))
        } else {
            before
        }
    }
}

/// The fields in the debug formatting: from the most significant field down.
pub open spec fn debug_fields(attribute: BitfieldAttribute, fields: Seq<FieldModel>) -> Seq<DebugField> {
    Seq::new(
        fields.len(),
        |k: int|
            if attribute.bit_order == BitOrder::Lsb {
                debug_field_of(fields[fields.len() - 1 - k], fields.len() - 1 - k)
            } else {
                debug_field_of(fields[k], k)
            },
    )
}

/// Whether every field is a valid descriptor.
pub open spec fn valid_fields(fields: Seq<FieldModel>) -> bool {
    forall|i: int| 0 <= i < fields.len() ==> valid_field(#[trigger] fields[i])
}

/// Generates the field constants for the bitfield.
pub fn generate_field_constants_tokens(fields: &Vec<BitfieldField>) -> (r: Vec<FieldConstants>)
    ensures
        r@ == field_constants(models(fields@), fields@.len() as int),
{
    let mut r: Vec<FieldConstants> = Vec::new();
    let mut i: usize = 0;
    while i < fields.len()
        invariant
            i <= fields.len(),
            r@ == field_constants(models(fields@), i as int),
        decreases fields.len() - i,
    {
        let field = &fields[i];
        assert(models(fields@)[i as int] == field@);
        if !field.padding && (does_field_have_getter(field) || does_field_have_setter(field)) {
            r.push(
                FieldConstants { field: i, bits: field.bits as u32, offset: field.offset as u32 },
            );
        }
        i += 1;
    }
    r
}

fn documentation_of(attribute: &BitfieldAttribute, field: &BitfieldField) -> (r: BitsDocumentation)
    ensures
        r == plain_documentation(*attribute, field@),
{
    if field.bits == 1 {
        BitsDocumentation::SingleBit
    } else if attribute.bit_order == BitOrder::Msb {
        BitsDocumentation::Descending
    } else {
        BitsDocumentation::Ascending
    }
}

/// Generates the field getters for the bitfield.
pub fn generate_field_getters_functions_tokens(
    bitfield_attribute: &BitfieldAttribute,
    fields: &Vec<BitfieldField>,
    generate_neg_getter: bool,
) -> (r: Vec<FieldGetter>)
    requires
        valid_fields(models(fields@)),
    ensures
        r@ == field_getters(
            *bitfield_attribute,
            models(fields@),
            generate_neg_getter,
            fields@.len() as int,
        ),
{
    let mut r: Vec<FieldGetter> = Vec::new();
    let mut i: usize = 0;
    while i < fields.len()
        invariant
            i <= fields.len(),
            valid_fields(models(fields@)),
            r@ == field_getters(
                *bitfield_attribute,
                models(fields@),
                generate_neg_getter,
                i as int,
            ),
        decreases fields.len() - i,
    {
        let field = &fields[i];
        assert(models(fields@)[i as int] == field@);
        if !field.padding && does_field_have_getter(field) {
            let custom = field.field_type == FieldType::CustomFieldType;
            let boolean = field.integer_type == IntegerType::Bool;
            let integer = !custom && !boolean;
            let sign_extend_shift = if integer && !field.unsigned {
                match bits_of_type(field.integer_type) {
                    Some(natural) => Some(natural - field.bits),
                    None => None,
                }
            } else {
                None
            };
            r.push(
                FieldGetter {
                    field: i,
                    integer_type: field.integer_type,
                    kind: if custom {
                        GetterKind::Custom
                    } else if boolean {
                        GetterKind::Bool
                    } else {
                        GetterKind::Integer
                    },
                    sign_extend_shift,
                    first_bit: field.offset,
                    last_bit: field.offset + field.bits - 1,
                    documentation: if !custom && boolean {
                        BitsDocumentation::SingleBit
                    } else if integer && !field.unsigned && field.bits != 1 {
                        BitsDocumentation::SignExtended
                    } else {
                        documentation_of(bitfield_attribute, field)
                    },
                    inverted: generate_neg_getter,
                },
            );
        }
        i += 1;
    }
    r
}

/// Helper function to generate the body of a setter: the mask of the field is built from
/// its width, the value is compared with it where the setter is checked, and the value,
/// cut to the mask, replaces the bits of the field.
pub fn generate_setter_impl_tokens(field: &BitfieldField, check_value_bit_size: bool) -> (r:
    SetterImplementation)
    ensures
        r == setter_implementation_of(field@, check_value_bit_size),
{
    let custom = field.field_type == FieldType::CustomFieldType;
    let fills_signed = is_signed_type(field.integer_type) && match bits_of_type(
        field.integer_type,
    ) {
        Some(natural) => natural == field.bits,
        None => false,
    };
    SetterImplementation {
        bits: field.bits as u32,
        offset: field.offset as u32,
        named_constants: field.access == FieldAccess::ReadOnly,
        custom,
        checked: check_value_bit_size,
        comparison: if !check_value_bit_size {
            Comparison::Nothing
        } else if custom {
            Comparison::InBackingType
        } else if field.integer_type == IntegerType::Bool || fills_signed {
            Comparison::Nothing
        } else {
            Comparison::InFieldType
        },
    }
}

/// Generates the field setters for the bitfield.
pub fn generate_field_setters_functions_tokens(
    bitfield_attribute: &BitfieldAttribute,
    fields: &Vec<BitfieldField>,
) -> (r: Vec<FieldSetter>)
    requires
        valid_fields(models(fields@)),
    ensures
        r@ == field_setters(*bitfield_attribute, models(fields@), fields@.len() as int),
{
    let mut r: Vec<FieldSetter> = Vec::new();
    let mut i: usize = 0;
    while i < fields.len()
        invariant
            i <= fields.len(),
            valid_fields(models(fields@)),
            r@ == field_setters(*bitfield_attribute, models(fields@), i as int),
        decreases fields.len() - i,
    {
        let field = &fields[i];
        assert(models(fields@)[i as int] == field@);
        if !field.padding && does_field_have_setter(field) {
            r.push(
                FieldSetter {
                    field: i,
                    integer_type: field.integer_type,
                    first_bit: field.offset,
                    last_bit: field.offset + field.bits - 1,
                    documentation: documentation_of(bitfield_attribute, field),
                    setter: generate_setter_impl_tokens(field, false),
                    checked_setter: generate_setter_impl_tokens(field, true),
                },
            );
        }
        i += 1;
    }
    r
}

/// Generates the methods of the builder that set a field: one that cuts the value to the
/// field and a checked one, for each field that has a setter.
pub fn generate_builder_setters(fields: &Vec<BitfieldField>) -> (r: Vec<BuilderSetter>)
    requires
        valid_fields(models(fields@)),
    ensures
        r@ == builder_setters(models(fields@), fields@.len() as int),
{
    let mut r: Vec<BuilderSetter> = Vec::new();
    let mut i: usize = 0;
    while i < fields.len()
        invariant
            i <= fields.len(),
            valid_fields(models(fields@)),
            r@ == builder_setters(models(fields@), i as int),
        decreases fields.len() - i,
    {
        let field = &fields[i];
        assert(models(fields@)[i as int] == field@);
        if !field.padding && does_field_have_setter(field) {
            r.push(
                BuilderSetter {
                    field: i,
                    first_bit: field.offset,
                    end_bit: field.offset + field.bits,
                },
            );
        }
        i += 1;
    }
    r
}

/// Generates the bits that a bit operation does not touch: for reading, the fields
/// without a getter that are no padding; for writing, the fields without a setter.
pub fn generate_blocked_bits(fields: &Vec<BitfieldField>, writing: bool) -> (r: Vec<BlockedBits>)
    requires
        valid_fields(models(fields@)),
    ensures
        r@ == blocked_bits(models(fields@), writing, fields@.len() as int),
{
    let mut r: Vec<BlockedBits> = Vec::new();
    let mut i: usize = 0;
    while i < fields.len()
        invariant
            i <= fields.len(),
            valid_fields(models(fields@)),
            r@ == blocked_bits(models(fields@), writing, i as int),
        decreases fields.len() - i,
    {
        let field = &fields[i];
        assert(models(fields@)[i as int] == field@);
        let blocked = if writing {
            !does_field_have_setter(field)
        } else {
            !does_field_have_getter(field) && !field.padding
        };
        if blocked {
            r.push(
                BlockedBits {
                    start: field.offset as usize,
                    end: field.offset as usize + field.bits as usize,
                },
            );
        }
        i += 1;
    }
    r
}

/// Generates the debug implementation: the fields from the most significant one down,
/// which is the order of the declarations reversed where the first field holds the least
/// significant bits.
pub fn generate_debug_implementation(
    bitfield_attribute: &BitfieldAttribute,
    fields: &Vec<BitfieldField>,
) -> (r: Vec<DebugField>)
    ensures
        r@ == debug_fields(*bitfield_attribute, models(fields@)),
{
    let n = fields.len();
    let mut r: Vec<DebugField> = Vec::new();
    let mut k: usize = 0;
    while k < n
        invariant
            n == fields.len(),
            k <= n,
            r@.len() == k,
            forall|j: int| 0 <= j < k ==> r@[j] == debug_fields(*bitfield_attribute, models(fields@))[j],
        decreases n - k,
    {
        let index = if bitfield_attribute.bit_order == BitOrder::Lsb {
            n - 1 - k
        } else {
            k
        };
        let field = &fields[index];
        assert(models(fields@)[index as int] == field@);
        r.push(DebugField { field: index, bits: field.bits as u32, offset: field.offset as u32 });
        k += 1;
    }
    assert(r@ =~= debug_fields(*bitfield_attribute, models(fields@)));
    r
}

/// The name of the constant that holds the width of the field.
pub fn bits_constant_name(field_name: &str) -> (r: String)
    ensures
        r@ == ascii_uppercase(field_name@) + "_BITS"@,
{
    uppercase(field_name).concat("_BITS")
}

/// The name of the constant that holds the offset of the field.
pub fn offset_constant_name(field_name: &str) -> (r: String)
    ensures
        r@ == ascii_uppercase(field_name@) + "_OFFSET"@,
{
    uppercase(field_name).concat("_OFFSET")
}

/// The name of the getter of the inverted bits of the field.
pub fn inverted_getter_name(field_name: &str) -> (r: String)
    ensures
        r@ == "neg_"@ + field_name@,
{
    String::from_str("neg_").concat(field_name)
}

/// The name of the setter of the field.
pub fn setter_name(field_name: &str) -> (r: String)
    ensures
        r@ == "set_"@ + field_name@,
{
    String::from_str("set_").concat(field_name)
}

/// The name of the checked setter of the field.
pub fn checked_setter_name(field_name: &str) -> (r: String)
    ensures
        r@ == "checked_set_"@ + field_name@,
{
    String::from_str("checked_set_").concat(field_name)
}

/// The name of the method of the builder that sets the field.
pub fn builder_setter_name(field_name: &str) -> (r: String)
    ensures
        r@ == "with_"@ + field_name@,
{
    String::from_str("with_").concat(field_name)
}

/// The name of the checked method of the builder that sets the field.
pub fn checked_builder_setter_name(field_name: &str) -> (r: String)
    ensures
        r@ == "checked_with_"@ + field_name@,
{
    String::from_str("checked_with_").concat(field_name)
}

/// The name of the builder of the bitfield.
pub fn builder_name(bitfield_struct_name: &str) -> (r: String)
    ensures
        r@ == bitfield_struct_name@ + "Builder"@,
{
    String::from_str(bitfield_struct_name).concat("Builder")
}

} // verus!
