//! What can be wrong with the declaration of a bitfield, and with a value given to one of
//! its operations.

use vstd::prelude::*;
use crate::text::{decimal, decimal_digits};
use crate::types::{get_integer_suffix_from_integer_type, suffix_of, IntegerType};

verus! {

/// What is wrong with the value of one `key = value` argument of an attribute.
#[derive(Debug, Copy, Clone, PartialEq, Eq, Structural)]
pub enum ArgumentError {
    /// The value is not an identifier.
    ExpectedIdentifier,
    /// The value is not a boolean literal.
    ExpectedBoolean,
    /// The order is neither `lsb` nor `msb`.
    InvalidOrder,
    /// The endianness is neither `little` nor `big`.
    InvalidEndian,
    /// The access is none of `ro`, `wo`, `rw` and `none`.
    InvalidAccess,
    /// The key is not known.
    UnknownArgument,
}

/// What is wrong with the arguments of the attribute on the struct.
#[derive(Debug, Copy, Clone, PartialEq, Eq, Structural)]
pub enum AttributeError {
    /// There is no type as the first argument.
    MissingBackingType,
    /// The first argument is not one of `u8`, `u16`, `u32`, `u64` and `u128`.
    UnsupportedBackingType,
    /// The argument at `index`, counted after the type, is wrong.
    Argument { index: usize, error: ArgumentError },
}

/// What is wrong with the declaration of one field.
#[derive(Debug, Copy, Clone, PartialEq, Eq, Structural)]
pub enum FieldError {
    /// The attribute on the field has no list of arguments.
    BitsAttributeNotList,
    /// The argument at `index` of the attribute on the field is wrong.
    Argument { index: usize, error: ArgumentError },
    /// The field has a type as wide as the platform's word, and no width of its own.
    AmbiguousWidthFieldType,
    /// The field has a custom type, and no width of its own.
    MissingExplicitWidth,
    /// The field is 0 bits wide.
    ZeroWidthField,
    /// The field is wider than its type.
    FieldTooWideForDeclaredType { integer_type: IntegerType, type_bits: u8, bits: u8 },
    /// The default value does not fit into the bits of the field.
    DefaultValueExceedsFieldWidth { value: u128, negative: bool, bits: u8 },
    /// The default value does not fit into the type of the field.
    DefaultValueExceedsTypeRange { value: u128, negative: bool, integer_type: IntegerType },
    /// The default value is a floating-point literal.
    FloatDefaultValueUnsupported,
    /// A padding field names an access.
    PaddingFieldWithExplicitAccess,
    /// The declaration is one that the other checks leave no meaning for.
    UnexpectedConfiguration,
}

/// Why no bitfield is generated.
#[derive(Debug, Copy, Clone, PartialEq, Eq, Structural)]
pub enum BitfieldError {
    /// The arguments of the attribute on the struct are wrong.
    Attribute(AttributeError),
    /// The struct has no named fields.
    NonNamedFields,
    /// The field at `index` of the struct is wrong.
    Field { index: usize, error: FieldError },
    /// The packed field at `index` has the name of an earlier field that is no padding.
    DuplicateFieldName { index: usize },
    /// The fields hold `total` bits together, more than the `bits` bits of the bitfield.
    LayoutBudgetExceeded { total: u128, bits: u8 },
    /// The fields hold `total` bits together, less than the `bits` bits of the bitfield: a
    /// padding field of `remaining` bits would fill it.
    LayoutBudgetUnderfilled { total: u128, bits: u8, remaining: u8 },
}

/// Why a checked operation on a value of a bitfield is refused.
#[derive(Debug, Copy, Clone, PartialEq, Eq, Structural)]
pub enum OperationError {
    /// The value does not fit into the bits of the field.
    ValueTooLargeForField,
    /// The index of the bit is not below the width of the bitfield.
    IndexOutOfBounds,
    /// The bit lies in a field that may not be read.
    NoReadAccessAtBit,
    /// The bit lies in a field that may not be written.
    NoWriteAccessAtBit,
    /// The bitfield has no setter for a field of this name.
    NoSuchSetter,
}

/// The text that tells of the error.
pub open spec fn operation_message(error: OperationError) -> Seq<char> {
    match error {
        OperationError::ValueTooLargeForField => "Value is too big to fit within the field bits."@,
        OperationError::IndexOutOfBounds => "Index out of bounds."@,
        OperationError::NoReadAccessAtBit => "Can't read from a write-only field."@,
        OperationError::NoWriteAccessAtBit => "Can't write to a non-writable or padding field."@,
        OperationError::NoSuchSetter => "The field has no setter."@,
    }
}

impl OperationError {
    /// The text that tells of the error.
    pub fn message(&self) -> (r: &'static str)
        ensures
            r@ == operation_message(*self),
    {
        match self {
            OperationError::ValueTooLargeForField => "Value is too big to fit within the field bits.",
            OperationError::IndexOutOfBounds => "Index out of bounds.",
            OperationError::NoReadAccessAtBit => "Can't read from a write-only field.",
            OperationError::NoWriteAccessAtBit => "Can't write to a non-writable or padding field.",
            OperationError::NoSuchSetter => "The field has no setter.",
        }
    }
}


/// The text that tells of the error.
pub open spec fn argument_message(error: ArgumentError) -> Seq<char> {
    match error {
        ArgumentError::ExpectedIdentifier => "Failed to parse the argument, expected an identifier."@,
        ArgumentError::ExpectedBoolean => "Failed to parse the argument, must be either 'true' or 'false'."@,
        ArgumentError::InvalidOrder => "Invalid order, must be either 'lsb' or 'msb'."@,
        ArgumentError::InvalidEndian => "Invalid endian, must be either 'little' or 'big'."@,
        ArgumentError::InvalidAccess => "Unable to parse access value, expected 'ro', 'wo', 'rw', or 'none'"@,
        ArgumentError::UnknownArgument => "Unknown argument."@,
    }
}

/// The text that tells of the error.
pub open spec fn attribute_message(error: AttributeError) -> Seq<char> {
    match error {
        AttributeError::MissingBackingType => "Failed to parse the 'bitfield' attribute field type. The 'bitfield' attribute must have an unsigned integer type as its first argument."@,
        AttributeError::UnsupportedBackingType => "The 'bitfield' attribute must have an unsigned integer type as its first argument."@,
        AttributeError::Argument { index, error } => argument_message(error),
    }
}

/// The name of the type; empty for a custom type.
pub open spec fn name_of_integer_type(integer_type: IntegerType) -> Seq<char> {
    match suffix_of(integer_type) {
        Some(name) => name,
        None => Seq::empty(),
    }
}

/// The text that tells of the error, with the numbers that it is about.
pub open spec fn field_message(error: FieldError) -> Seq<char> {
    match error {
        FieldError::BitsAttributeNotList => "The '#[bits]' attribute must be a list."@,
        FieldError::Argument { index, error } => argument_message(error),
        FieldError::AmbiguousWidthFieldType => "The types isize and usize require a bit size, otherwise we can't determine the size of the field."@,
        FieldError::MissingExplicitWidth => "Custom and nested field types require a defined bit size, otherwise we can't determine the size of the field."@,
        FieldError::ZeroWidthField => "The field bits must be greater than 0."@,
        FieldError::FieldTooWideForDeclaredType { integer_type, type_bits, bits } => "The field type \""@
            + name_of_integer_type(integer_type) + "\" ("@ + decimal_digits(type_bits as nat)
            + " bits) is too small to hold the specified '"@ + decimal_digits(bits as nat)
            + " bits'."@,
        FieldError::DefaultValueExceedsFieldWidth { value, negative, bits } => (if negative {
            "The default value -'"@
        } else {
            "The default value '"@
        }) + decimal_digits(value as nat) + "' is too large to fit into the specified '"@
            + decimal_digits(bits as nat) + " bits'."@,
        FieldError::DefaultValueExceedsTypeRange { value, negative, integer_type } => (if negative {
            "The default value '-"@
        } else {
            "The default value '"@
        }) + decimal_digits(value as nat) + "' is too large to fit into the field type '"@
            + name_of_integer_type(integer_type) + "'."@,
        FieldError::FloatDefaultValueUnsupported => "Floats are not supported as default values."@,
        FieldError::PaddingFieldWithExplicitAccess => "Padding fields can't have a specified access."@,
        FieldError::UnexpectedConfiguration => "A major unexpected error has occurred."@,
    }
}

/// The text that tells of the error, with the numbers that it is about.
pub open spec fn bitfield_message(error: BitfieldError) -> Seq<char> {
    match error {
        BitfieldError::Attribute(e) => attribute_message(e),
        BitfieldError::NonNamedFields => "Non-named fields are not supported."@,
        BitfieldError::Field { index, error } => field_message(error),
        BitfieldError::DuplicateFieldName { index } => "The field name is duplicated, each field must have a unique name."@,
        BitfieldError::LayoutBudgetExceeded { total, bits } => "The total number of bits of the fields ("@
            + decimal_digits(total as nat)
            + " bits) is greater than the number of bits of the bitfield type 'u"@
            + decimal_digits(bits as nat) + "' ("@ + decimal_digits(bits as nat) + " bits)."@,
        BitfieldError::LayoutBudgetUnderfilled { total, bits, remaining } => "The total number of bits of the fields ("@
            + decimal_digits(total as nat)
            + " bits) is less than the number of bits of the bitfield type 'u"@
            + decimal_digits(bits as nat) + "' ("@ + decimal_digits(bits as nat)
            + " bits), you can add a padding field (prefixed with '_') to fill the remaining '"@
            + decimal_digits(remaining as nat) + " bits'."@,
    }
}

impl ArgumentError {
    /// The text that tells of the error.
    pub fn message(&self) -> (r: String)
        ensures
            r@ == argument_message(*self),
    {
        String::from_str(
            match self {
                ArgumentError::ExpectedIdentifier => "Failed to parse the argument, expected an identifier.",
                ArgumentError::ExpectedBoolean => "Failed to parse the argument, must be either 'true' or 'false'.",
                ArgumentError::InvalidOrder => "Invalid order, must be either 'lsb' or 'msb'.",
                ArgumentError::InvalidEndian => "Invalid endian, must be either 'little' or 'big'.",
                ArgumentError::InvalidAccess => "Unable to parse access value, expected 'ro', 'wo', 'rw', or 'none'",
                ArgumentError::UnknownArgument => "Unknown argument.",
            },
        )
    }
}

impl AttributeError {
    /// The text that tells of the error.
    pub fn message(&self) -> (r: String)
        ensures
            r@ == attribute_message(*self),
    {
        match self {
            AttributeError::MissingBackingType => String::from_str(
                "Failed to parse the 'bitfield' attribute field type. The 'bitfield' attribute must have an unsigned integer type as its first argument.",
            ),
            AttributeError::UnsupportedBackingType => String::from_str(
                "The 'bitfield' attribute must have an unsigned integer type as its first argument.",
            ),
            AttributeError::Argument { index, error } => error.message(),
        }
    }
}

/// Computes [`name_of_integer_type`].
fn name_of_type(integer_type: IntegerType) -> (r: String)
    ensures
        r@ == name_of_integer_type(integer_type),
{
    match get_integer_suffix_from_integer_type(integer_type) {
        Some(name) => name,
        None => String::new(),
    }
}

impl FieldError {
    /// The text that tells of the error, with the numbers that it is about.
    pub fn message(&self) -> (r: String)
        ensures
            r@ == field_message(*self),
    {
        match self {
            FieldError::BitsAttributeNotList => String::from_str(
                "The '#[bits]' attribute must be a list.",
            ),
            FieldError::Argument { index, error } => error.message(),
            FieldError::AmbiguousWidthFieldType => String::from_str(
                "The types isize and usize require a bit size, otherwise we can't determine the size of the field.",
            ),
            FieldError::MissingExplicitWidth => String::from_str(
                "Custom and nested field types require a defined bit size, otherwise we can't determine the size of the field.",
            ),
            FieldError::ZeroWidthField => String::from_str("The field bits must be greater than 0."),
            FieldError::FieldTooWideForDeclaredType {
                integer_type,
                type_bits,
                bits,
            } => String::from_str("The field type \"").concat(
                name_of_type(*integer_type).as_str(),
            ).concat("\" (").concat(decimal(*type_bits as u128).as_str()).concat(
                " bits) is too small to hold the specified '",
            ).concat(decimal(*bits as u128).as_str()).concat(" bits'."),
            FieldError::DefaultValueExceedsFieldWidth { value, negative, bits } => String::from_str(
                if *negative {
                    "The default value -'"
                } else {
                    "The default value '"
                },
            ).concat(decimal(*value).as_str()).concat(
                "' is too large to fit into the specified '",
            ).concat(decimal(*bits as u128).as_str()).concat(" bits'."),
            FieldError::DefaultValueExceedsTypeRange {
                value,
                negative,
                integer_type,
            } => String::from_str(
                if *negative {
                    "The default value '-"
                } else {
                    "The default value '"
                },
            ).concat(decimal(*value).as_str()).concat(
                "' is too large to fit into the field type '",
            ).concat(name_of_type(*integer_type).as_str()).concat("'."),
            FieldError::FloatDefaultValueUnsupported => String::from_str(
                "Floats are not supported as default values.",
            ),
            FieldError::PaddingFieldWithExplicitAccess => String::from_str(
                "Padding fields can't have a specified access.",
            ),
            FieldError::UnexpectedConfiguration => String::from_str(
                "A major unexpected error has occurred.",
            ),
        }
    }
}

impl BitfieldError {
    /// The text that tells of the error, with the numbers that it is about. The text with
    /// the names and values of the declarations is given by
    /// [`describe`](crate::diagnostics::describe).
    pub fn message(&self) -> (r: String)
        ensures
            r@ == bitfield_message(*self),
    {
        match self {
            BitfieldError::Attribute(e) => e.message(),
            BitfieldError::NonNamedFields => String::from_str("Non-named fields are not supported."),
            BitfieldError::Field { index, error } => error.message(),
            BitfieldError::DuplicateFieldName { index } => String::from_str(
                "The field name is duplicated, each field must have a unique name.",
            ),
            BitfieldError::LayoutBudgetExceeded { total, bits } => String::from_str(
                "The total number of bits of the fields (",
            ).concat(decimal(*total).as_str()).concat(
                " bits) is greater than the number of bits of the bitfield type 'u",
            ).concat(decimal(*bits as u128).as_str()).concat("' (").concat(
                decimal(*bits as u128).as_str(),
            ).concat(" bits)."),
            BitfieldError::LayoutBudgetUnderfilled { total, bits, remaining } => String::from_str(
                "The total number of bits of the fields (",
            ).concat(decimal(*total).as_str()).concat(
                " bits) is less than the number of bits of the bitfield type 'u",
            ).concat(decimal(*bits as u128).as_str()).concat("' (").concat(
                decimal(*bits as u128).as_str(),
            ).concat(
                " bits), you can add a padding field (prefixed with '_') to fill the remaining '",
            ).concat(decimal(*remaining as u128).as_str()).concat(" bits'."),
        }
    }
}

} // verus!
