//! The element types that a field can have.

use vstd::prelude::*;
use crate::text::str_equals;

verus! {

/// What the name of a field's or a bitfield's type stands for.
#[derive(Debug, Copy, Clone, PartialEq, Eq, Structural)]
pub enum IntegerType {
    U8,
    U16,
    U32,
    U64,
    U128,
    Usize,
    Isize,
    I8,
    I16,
    I32,
    I64,
    I128,
    Bool,
    /// Any other name: a custom or nested type.
    UnknownInteger,
}

/// The type that the identifier `ty` names.
pub open spec fn integer_type_of(ty: Seq<char>) -> IntegerType {
    if ty == "u8"@ {
        IntegerType::U8
    } else if ty == "u16"@ {
        IntegerType::U16
    } else if ty == "u32"@ {
        IntegerType::U32
    } else if ty == "u64"@ {
        IntegerType::U64
    } else if ty == "u128"@ {
        IntegerType::U128
    } else if ty == "usize"@ {
        IntegerType::Usize
    } else if ty == "i8"@ {
        IntegerType::I8
    } else if ty == "i16"@ {
        IntegerType::I16
    } else if ty == "i32"@ {
        IntegerType::I32
    } else if ty == "i64"@ {
        IntegerType::I64
    } else if ty == "i128"@ {
        IntegerType::I128
    } else if ty == "isize"@ {
        IntegerType::Isize
    } else if ty == "bool"@ {
        IntegerType::Bool
    } else {
        IntegerType::UnknownInteger
    }
}

/// The identifier that names the type; none for a custom type.
pub open spec fn suffix_of(integer_type: IntegerType) -> Option<Seq<char>> {
    match integer_type {
        IntegerType::U8 => Some("u8"@),
        IntegerType::U16 => Some("u16"@),
        IntegerType::U32 => Some("u32"@),
        IntegerType::U64 => Some("u64"@),
        IntegerType::U128 => Some("u128"@),
        IntegerType::Usize => Some("usize"@),
        IntegerType::I8 => Some("i8"@),
        IntegerType::I16 => Some("i16"@),
        IntegerType::I32 => Some("i32"@),
        IntegerType::I64 => Some("i64"@),
        IntegerType::I128 => Some("i128"@),
        IntegerType::Isize => Some("isize"@),
        IntegerType::Bool => Some("bool"@),
        IntegerType::UnknownInteger => None,
    }
}

/// The natural width of the type in bits; none for a type whose width depends on the
/// platform and for a custom type.
pub open spec fn type_bits(integer_type: IntegerType) -> Option<u8> {
    match integer_type {
        IntegerType::Bool => Some(1),
        IntegerType::U8 | IntegerType::I8 => Some(8),
        IntegerType::U16 | IntegerType::I16 => Some(16),
        IntegerType::U32 | IntegerType::I32 => Some(32),
        IntegerType::U64 | IntegerType::I64 => Some(64),
        IntegerType::U128 | IntegerType::I128 => Some(128),
        _ => None,
    }
}

/// Whether a bitfield can be backed by the type.
pub open spec fn is_backing_type(integer_type: IntegerType) -> bool {
    integer_type == IntegerType::U8 || integer_type == IntegerType::U16 || integer_type
        == IntegerType::U32 || integer_type == IntegerType::U64 || integer_type
        == IntegerType::U128
}

/// Whether the type is an unsigned integer.
pub open spec fn is_unsigned_integer(integer_type: IntegerType) -> bool {
    is_backing_type(integer_type) || integer_type == IntegerType::Usize
}

/// Whether the type is a signed integer.
pub open spec fn is_signed_integer(integer_type: IntegerType) -> bool {
    integer_type == IntegerType::I8 || integer_type == IntegerType::I16 || integer_type
        == IntegerType::I32 || integer_type == IntegerType::I64 || integer_type
        == IntegerType::I128 || integer_type == IntegerType::Isize
}

/// Returns the integer type from the type's identifier.
pub fn get_integer_type_from_type(ty: &str) -> (r: IntegerType)
    ensures
        r == integer_type_of(ty@),
{
    if str_equals(ty, "u8") {
        IntegerType::U8
    } else if str_equals(ty, "u16") {
        IntegerType::U16
    } else if str_equals(ty, "u32") {
        IntegerType::U32
    } else if str_equals(ty, "u64") {
        IntegerType::U64
    } else if str_equals(ty, "u128") {
        IntegerType::U128
    } else if str_equals(ty, "usize") {
        IntegerType::Usize
    } else if str_equals(ty, "i8") {
        IntegerType::I8
    } else if str_equals(ty, "i16") {
        IntegerType::I16
    } else if str_equals(ty, "i32") {
        IntegerType::I32
    } else if str_equals(ty, "i64") {
        IntegerType::I64
    } else if str_equals(ty, "i128") {
        IntegerType::I128
    } else if str_equals(ty, "isize") {
        IntegerType::Isize
    } else if str_equals(ty, "bool") {
        IntegerType::Bool
    } else {
        IntegerType::UnknownInteger
    }
}

/// Returns the integer suffix from the integer type; none for a custom type.
pub fn get_integer_suffix_from_integer_type(integer_type: IntegerType) -> (r: Option<String>)
    ensures
        match r {
            Some(s) => suffix_of(integer_type) == Some(s@),
            None => suffix_of(integer_type).is_none(),
        },
{
    let name = match integer_type {
        IntegerType::U8 => "u8",
        IntegerType::U16 => "u16",
        IntegerType::U32 => "u32",
        IntegerType::U64 => "u64",
        IntegerType::U128 => "u128",
        IntegerType::Usize => "usize",
        IntegerType::I8 => "i8",
        IntegerType::I16 => "i16",
        IntegerType::I32 => "i32",
        IntegerType::I64 => "i64",
        IntegerType::I128 => "i128",
        IntegerType::Isize => "isize",
        IntegerType::Bool => "bool",
        IntegerType::UnknownInteger => {
            return None;
        },
    };
    Some(String::from_str(name))
}

/// Returns if the type is a supported bitfield type.
pub fn is_supported_bitfield_type(ty: &str) -> (r: bool)
    ensures
        r == is_backing_type(integer_type_of(ty@)),
{
    let t = get_integer_type_from_type(ty);
    t == IntegerType::U8 || t == IntegerType::U16 || t == IntegerType::U32 || t
        == IntegerType::U64 || t == IntegerType::U128
}

/// Returns if the type is a supported bitfield field type: every type is, a primitive as
/// itself and any other as a custom type.
pub fn is_supported_field_type(ty: &str) -> (r: bool)
    ensures
        r,
{
    let t = get_integer_type_from_type(ty);
    is_custom_field_type(ty) || t != IntegerType::UnknownInteger
}

/// Returns if the type is an unsigned integer type or `bool`.
pub fn is_unsigned_integer_type(ty: &str) -> (r: bool)
    ensures
        r == (is_unsigned_integer(integer_type_of(ty@)) || integer_type_of(ty@)
            == IntegerType::Bool),
{
    let t = get_integer_type_from_type(ty);
    t == IntegerType::U8 || t == IntegerType::U16 || t == IntegerType::U32 || t
        == IntegerType::U64 || t == IntegerType::U128 || t == IntegerType::Usize || t
        == IntegerType::Bool
}

/// Returns if the type is a signed integer type.
pub fn is_signed_integer_type(ty: &str) -> (r: bool)
    ensures
        r == is_signed_integer(integer_type_of(ty@)),
{
    let t = get_integer_type_from_type(ty);
    t == IntegerType::I8 || t == IntegerType::I16 || t == IntegerType::I32 || t
        == IntegerType::I64 || t == IntegerType::I128 || t == IntegerType::Isize
}

/// Returns if the type is `bool`.
pub fn is_bool_type(ty: &str) -> (r: bool)
    ensures
        r == (integer_type_of(ty@) == IntegerType::Bool),
{
    get_integer_type_from_type(ty) == IntegerType::Bool
}

/// Returns the number of bits of the integer type; none where the type has no natural width.
pub fn get_bits_from_type(ty: &str) -> (r: Option<u8>)
    ensures
        r == type_bits(integer_type_of(ty@)),
{
    match get_integer_type_from_type(ty) {
        IntegerType::Bool => Some(1),
        IntegerType::U8 | IntegerType::I8 => Some(8),
        IntegerType::U16 | IntegerType::I16 => Some(16),
        IntegerType::U32 | IntegerType::I32 => Some(32),
        IntegerType::U64 | IntegerType::I64 => Some(64),
        IntegerType::U128 | IntegerType::I128 => Some(128),
        _ => None,
    }
}

/// Returns if the type is a size type.
pub fn is_size_type(ty: &str) -> (r: bool)
    ensures
        r == (integer_type_of(ty@) == IntegerType::Usize || integer_type_of(ty@)
            == IntegerType::Isize),
{
    let t = get_integer_type_from_type(ty);
    t == IntegerType::Usize || t == IntegerType::Isize
}

/// Returns if the type is a custom field type.
pub fn is_custom_field_type(ty: &str) -> (r: bool)
    ensures
        r == (integer_type_of(ty@) == IntegerType::UnknownInteger),
{
    !is_unsigned_integer_type(ty) && !is_signed_integer_type(ty) && !is_bool_type(ty)
}

} // verus!
