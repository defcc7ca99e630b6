//! What the operations on one field, on one bit and on the bytes of the backing integer
//! compute.

use vstd::prelude::*;
use crate::bitfield_field::{BitfieldField, FieldAccess, FieldModel, FieldType};
use crate::bits::{extract, extract_bits, field_mask, in_range, insert, insert_bits, mask};
use crate::error::OperationError;
use crate::layout::is_padding_name;
use crate::types::{is_signed_integer, type_bits, IntegerType};

verus! {

/// The value of a field, as its type has it: a boolean, an unsigned integer (also the
/// bits of a custom type), or a signed integer.
#[derive(Debug, Copy, Clone, PartialEq, Eq, Structural)]
pub enum FieldValue {
    Bool(bool),
    Unsigned(u128),
    Signed(i128),
}

/// 2 to the power of 127.
pub open spec fn sign_bit() -> u128 {
    0x8000_0000_0000_0000_0000_0000_0000_0000
}

/// The bits of a value, a signed number in two's complement.
pub open spec fn value_bits(value: FieldValue) -> u128 {
    match value {
        FieldValue::Bool(b) => if b {
            1
        } else {
            0
        },
        FieldValue::Unsigned(v) => v,
        FieldValue::Signed(v) => if v >= 0 {
            v as u128
        } else {
            (v + 0x1_0000_0000_0000_0000_0000_0000_0000_0000) as u128
        },
    }
}

/// A value as a signed number, an unsigned number from 2 to the power of 127 on read in
/// two's complement.
pub open spec fn value_signed(value: FieldValue) -> i128 {
    match value {
        FieldValue::Bool(b) => if b {
            1
        } else {
            0
        },
        FieldValue::Unsigned(v) => if v < sign_bit() {
            v as i128
        } else {
            (v - 0x1_0000_0000_0000_0000_0000_0000_0000_0000) as i128
        },
        FieldValue::Signed(v) => v,
    }
}

/// The number that the low `bits` bits of `raw` stand for in two's complement: `raw`
/// itself below 2 to the power of `bits - 1`, and `raw` less 2 to the power of `bits`
/// from there on.
pub open spec fn sign_extend(raw: u128, bits: u8) -> i128 {
    if bits == 0 || raw <= mask((bits - 1) as u8) {
        raw as i128
    } else {
        (raw - mask(bits) - 1) as i128
    }
}

/// Whether the field has a setter method.
pub open spec fn has_setter(field: FieldModel) -> bool {
    (field.access == FieldAccess::ReadWrite || field.access == FieldAccess::WriteOnly)
        && !field.padding
}

/// Whether the field has a getter method.
pub open spec fn has_getter(field: FieldModel) -> bool {
    (field.access == FieldAccess::ReadWrite || field.access == FieldAccess::ReadOnly)
        && !field.padding
}

/// Whether the descriptor of a packed field is one that this library gives, but for its
/// offset: it is not empty, its type has a known width and holds the field, it is padding
/// exactly if its name says so, padding has no access, and zero is written as zero bits
/// where the type is no custom type.
pub open spec fn well_formed_field(field: FieldModel) -> bool {
    &&& 1 <= field.bits
    &&& !field.ignore
    &&& field.field_type == (if field.integer_type == IntegerType::UnknownInteger {
        FieldType::CustomFieldType
    } else {
        FieldType::IntegerFieldType
    })
    &&& field.integer_type != IntegerType::UnknownInteger ==> type_bits(field.integer_type).is_some()
        && field.bits <= type_bits(field.integer_type).unwrap() && field.zero_value == 0
    &&& field.padding == is_padding_name(field.name)
    &&& field.padding ==> field.access == FieldAccess::NoAccess
}

/// Whether the descriptor of a packed field is well formed and lies inside 128 bits.
pub open spec fn valid_field(field: FieldModel) -> bool {
    in_range(field.offset, field.bits) && well_formed_field(field)
}

/// Whether the bits of the field are read in two's complement.
pub open spec fn reads_signed(field: FieldModel) -> bool {
    is_signed_integer(field.integer_type) && (!field.unsigned || Some(field.bits) == type_bits(
        field.integer_type,
    ))
}

/// The value that the bits `raw` of a field stand for: a boolean that tells whether they
/// are not zero, a signed integer in two's complement, or the bits as they are.
pub open spec fn interpret(field: FieldModel, raw: u128) -> FieldValue {
    if field.integer_type == IntegerType::Bool {
        FieldValue::Bool(raw != 0)
    } else if reads_signed(field) {
        FieldValue::Signed(sign_extend(raw, field.bits))
    } else if is_signed_integer(field.integer_type) {
        FieldValue::Signed(raw as i128)
    } else {
        FieldValue::Unsigned(raw)
    }
}

/// What the getter of the field returns: the value that the bits of the field stand for.
pub open spec fn read_value(field: FieldModel, storage: u128) -> FieldValue {
    interpret(field, extract(storage, field.offset, field.bits))
}

/// What the inverted getter of the field returns: the value that the bits of the field
/// stand for once each of them is inverted.
pub open spec fn read_inverted(field: FieldModel, storage: u128) -> FieldValue {
    interpret(field, !(storage >> (field.offset as u128)) & mask(field.bits))
}

/// The storage after the setter of the field: the low bits of the value in the place of
/// the field, and all else as before.
pub open spec fn write_value(field: FieldModel, storage: u128, value: FieldValue) -> u128 {
    insert(storage, field.offset, field.bits, value_bits(value))
}

/// Whether the field is a signed integer that is as wide as its type: every value of the
/// type fits into such a field.
pub open spec fn fills_signed_type(field: FieldModel) -> bool {
    is_signed_integer(field.integer_type) && Some(field.bits) == type_bits(field.integer_type)
}

/// Whether the checked setter of the field refuses the value: it compares the value with
/// the mask of the field, a signed value as a signed number. A boolean field and a signed
/// field as wide as its type refuse nothing.
pub open spec fn exceeds_field(field: FieldModel, value: FieldValue) -> bool {
    if field.integer_type == IntegerType::Bool || fills_signed_type(field) {
        false
    } else if is_signed_integer(field.integer_type) {
        value_signed(value) > mask(field.bits)
    } else {
        value_bits(value) > mask(field.bits)
    }
}

/// The bytes of the low 16 bits of `x`, in reverse order.
pub open spec fn swap16(x: u128) -> u128 {
    ((x & 0xff) << 8) | ((x >> 8) & 0xff)
}

/// The bytes of the low 32 bits of `x`, in reverse order.
pub open spec fn swap32(x: u128) -> u128 {
    (swap16(x & 0xffff) << 16) | swap16((x >> 16) & 0xffff)
}

/// The bytes of the low 64 bits of `x`, in reverse order.
pub open spec fn swap64(x: u128) -> u128 {
    (swap32(x & 0xffff_ffff) << 32) | swap32((x >> 32) & 0xffff_ffff)
}

/// The bytes of `x`, in reverse order.
pub open spec fn swap128(x: u128) -> u128 {
    (swap64(x & 0xffff_ffff_ffff_ffff) << 64) | swap64(x >> 64)
}

/// The bytes of the low `bits` bits of `x` in reverse order, for a backing width of 8,
/// 16, 32, 64 or 128 bits.
pub open spec fn swap_bytes(x: u128, bits: u8) -> u128 {
    if bits == 16 {
        swap16(x)
    } else if bits == 32 {
        swap32(x)
    } else if bits == 64 {
        swap64(x)
    } else if bits == 128 {
        swap128(x)
    } else {
        x & 0xff
    }
}

/// The bit of `storage` at `index`.
pub open spec fn bit_at(storage: u128, index: u8) -> bool {
    extract(storage, index, 1) != 0
}

/// `storage` with the bit at `index` set to `bit`.
pub open spec fn with_bit(storage: u128, index: u8, bit: bool) -> u128 {
    insert(
        storage,
        index,
        1,
        if bit {
            1
        } else {
            0
        },
    )
}

proof fn lemma_mask_halves(bits: u8, below: u8)
    by (bit_vector)
    requires
        1 <= bits <= 128,
        below == bits - 1,
    ensures
        mask(bits) - mask(below) - 1 == mask(below),
        mask(below) <= 0x7fff_ffff_ffff_ffff_ffff_ffff_ffff_ffffu128,
        mask(below) < mask(bits),
{
}

proof fn lemma_extract_bound(storage: u128, offset: u8, bits: u8)
    by (bit_vector)
    requires
        offset < 128,
    ensures
        extract(storage, offset, bits) <= mask(bits),
{
}

/// Reversing the bytes of a value of `bits` bits puts the byte at `index`, counted from the
/// least significant one, where the byte at `index` counted from the most significant one
/// was.
pub proof fn lemma_swap_bytes_moves(x: u128, bits: u8, index: u8, mirrored: u8)
    by (bit_vector)
    requires
        bits == 8 || bits == 16 || bits == 32 || bits == 64 || bits == 128,
        8 * index + 8 <= bits,
        mirrored == bits - 8 - 8 * index,
    ensures
        extract(swap_bytes(x, bits), (8 * index) as u8, 8) == extract(x, mirrored, 8),
{
}

/// Reversing the bytes twice gives the value back.
pub proof fn lemma_swap_bytes_twice(x: u128, bits: u8)
    by (bit_vector)
    requires
        bits == 8 || bits == 16 || bits == 32 || bits == 64 || bits == 128,
        x <= mask(bits),
    ensures
        swap_bytes(swap_bytes(x, bits), bits) == x,
        swap_bytes(x, bits) <= mask(bits),
{
}

/// Computes [`value_bits`].
pub fn bits_of_value(value: FieldValue) -> (r: u128)
    ensures
        r == value_bits(value),
{
    match value {
        FieldValue::Bool(b) => if b {
            1
        } else {
            0
        },
        FieldValue::Unsigned(v) => v,
        FieldValue::Signed(v) => if v >= 0 {
            v as u128
        } else {
            u128::MAX - ((-(v + 1)) as u128)
        },
    }
}

/// Computes [`value_signed`].
pub fn signed_of_value(value: FieldValue) -> (r: i128)
    ensures
        r == value_signed(value),
{
    match value {
        FieldValue::Bool(b) => if b {
            1
        } else {
            0
        },
        FieldValue::Unsigned(v) => if v < 0x8000_0000_0000_0000_0000_0000_0000_0000 {
            v as i128
        } else {
            -((u128::MAX - v) as i128) - 1
        },
        FieldValue::Signed(v) => v,
    }
}

/// Computes [`sign_extend`] of the bits of a field.
pub fn sign_extend_bits(raw: u128, bits: u8) -> (r: i128)
    requires
        1 <= bits <= 128,
        raw <= mask(bits),
    ensures
        r == sign_extend(raw, bits),
{
    let below = field_mask(bits - 1);
    proof {
        lemma_mask_halves(bits, (bits - 1) as u8);
    }
    if raw <= below {
        raw as i128
    } else {
        let distance = field_mask(bits) - raw;
        -(distance as i128) - 1
    }
}

/// Returns whether the field has a setter method.
pub fn does_field_have_setter(field: &BitfieldField) -> (r: bool)
    ensures
        r == has_setter(field@),
{
    (field.access == FieldAccess::ReadWrite || field.access == FieldAccess::WriteOnly)
        && !field.padding
}

/// Returns whether the field has a getter method.
pub fn does_field_have_getter(field: &BitfieldField) -> (r: bool)
    ensures
        r == has_getter(field@),
{
    (field.access == FieldAccess::ReadWrite || field.access == FieldAccess::ReadOnly)
        && !field.padding
}

/// Whether the type is a signed integer.
pub fn is_signed_type(integer_type: IntegerType) -> (r: bool)
    ensures
        r == is_signed_integer(integer_type),
{
    integer_type == IntegerType::I8 || integer_type == IntegerType::I16 || integer_type
        == IntegerType::I32 || integer_type == IntegerType::I64 || integer_type
        == IntegerType::I128 || integer_type == IntegerType::Isize
}

/// The natural width of the type in bits, if it has one.
pub fn bits_of_type(integer_type: IntegerType) -> (r: Option<u8>)
    ensures
        r == type_bits(integer_type),
{
    match integer_type {
        IntegerType::Bool => Some(1),
        IntegerType::U8 | IntegerType::I8 => Some(8),
        IntegerType::U16 | IntegerType::I16 => Some(16),
        IntegerType::U32 | IntegerType::I32 => Some(32),
        IntegerType::U64 | IntegerType::I64 => Some(64),
        IntegerType::U128 | IntegerType::I128 => Some(128),
        _ => None,
    }
}

/// Computes [`interpret`] of bits that fit into the field.
fn interpret_bits(field: &BitfieldField, raw: u128) -> (r: FieldValue)
    requires
        valid_field(field@),
        raw <= mask(field.bits),
    ensures
        r == interpret(field@, raw),
{
    if field.integer_type == IntegerType::Bool {
        FieldValue::Bool(raw != 0)
    } else if is_signed_type(field.integer_type) {
        let full = match bits_of_type(field.integer_type) {
            Some(natural) => natural == field.bits,
            None => false,
        };
        if !field.unsigned || full {
            FieldValue::Signed(sign_extend_bits(raw, field.bits))
        } else {
            proof {
                lemma_mask_halves(128, 127);
                lemma_mask_ordered(field.bits, 127);
            }
            FieldValue::Signed(raw as i128)
        }
    } else {
        FieldValue::Unsigned(raw)
    }
}

/// Reads the field out of the storage, as its getter does.
pub fn get_field(field: &BitfieldField, storage: u128) -> (r: FieldValue)
    requires
        valid_field(field@),
    ensures
        r == read_value(field@, storage),
{
    let raw = extract_bits(storage, field.offset, field.bits);
    proof {
        lemma_extract_bound(storage, field.offset, field.bits);
    }
    interpret_bits(field, raw)
}

/// Bits that fit into at most 127 bits are a signed number that is not negative.
pub proof fn lemma_fits_signed(raw: u128, bits: u8)
    requires
        raw <= mask(bits),
        bits <= 127,
    ensures
        raw <= i128::MAX,
{
    lemma_mask_halves(128, 127);
    lemma_mask_ordered(bits, 127);
}

/// What is read from a field fits into the field.
pub proof fn lemma_read_fits(storage: u128, offset: u8, bits: u8)
    requires
        offset < 128,
    ensures
        extract(storage, offset, bits) <= mask(bits),
        !(storage >> (offset as u128)) & mask(bits) <= mask(bits),
{
    lemma_extract_bound(storage, offset, bits);
    lemma_masked_bound(!(storage >> (offset as u128)), bits);
}

proof fn lemma_masked_bound(x: u128, bits: u8)
    by (bit_vector)
    ensures
        x & mask(bits) <= mask(bits),
{
}

proof fn lemma_mask_ordered(a: u8, b: u8)
    by (bit_vector)
    requires
        a <= b,
    ensures
        mask(a) <= mask(b),
{
}

/// Reads the field out of the storage with every bit inverted, as its inverted getter does.
pub fn get_field_inverted(field: &BitfieldField, storage: u128) -> (r: FieldValue)
    requires
        valid_field(field@),
    ensures
        r == read_inverted(field@, storage),
{
    let raw = !(storage >> (field.offset as u128)) & field_mask(field.bits);
    proof {
        lemma_masked_bound(!(storage >> (field.offset as u128)), field.bits);
    }
    interpret_bits(field, raw)
}

/// Writes the value into the field, as its setter does: what does not fit into the bits
/// of the field is cut off.
pub fn set_field(field: &BitfieldField, storage: &mut u128, value: FieldValue)
    requires
        valid_field(field@),
    ensures
        *final(storage) == write_value(field@, *old(storage), value),
{
    *storage = insert_bits(*storage, field.offset, field.bits, bits_of_value(value));
}

/// Writes the value into the field, as its checked setter does: a value that the field
/// cannot hold is refused, and the storage stays as it was. A signed field as wide as its
/// type holds every value of the type.
pub fn checked_set_field(field: &BitfieldField, storage: &mut u128, value: FieldValue) -> (r:
    Result<(), OperationError>)
    requires
        valid_field(field@),
    ensures
        exceeds_field(field@, value) ==> r == Err::<(), OperationError>(
            OperationError::ValueTooLargeForField,
        ) && *final(storage) == *old(storage),
        !exceeds_field(field@, value) ==> r == Ok::<(), OperationError>(()) && *final(storage)
            == write_value(field@, *old(storage), value),
{
    let m = field_mask(field.bits);
    let exceeds = if field.integer_type == IntegerType::Bool {
        false
    } else if is_signed_type(field.integer_type) {
        let full = match bits_of_type(field.integer_type) {
            Some(natural) => natural == field.bits,
            None => false,
        };
        let v = signed_of_value(value);
        if full {
            false
        } else {
            proof {
                lemma_mask_halves(128, 127);
                lemma_mask_ordered(field.bits, 127);
            }
            v > m as i128
        }
    } else {
        bits_of_value(value) > m
    };
    if exceeds {
        return Err(OperationError::ValueTooLargeForField);
    }
    *storage = insert_bits(*storage, field.offset, field.bits, bits_of_value(value));
    Ok(())
}

/// Computes [`swap_bytes`].
pub fn swap_bytes_of(x: u128, bits: u8) -> (r: u128)
    ensures
        r == swap_bytes(x, bits),
{
    if bits == 16 {
        swap_16(x)
    } else if bits == 32 {
        swap_32(x)
    } else if bits == 64 {
        swap_64(x)
    } else if bits == 128 {
        (swap_64(x & 0xffff_ffff_ffff_ffff) << 64) | swap_64(x >> 64)
    } else {
        x & 0xff
    }
}

fn swap_16(x: u128) -> (r: u128)
    ensures
        r == swap16(x),
{
    ((x & 0xff) << 8) | ((x >> 8) & 0xff)
}

fn swap_32(x: u128) -> (r: u128)
    ensures
        r == swap32(x),
{
    (swap_16(x & 0xffff) << 16) | swap_16((x >> 16) & 0xffff)
}

fn swap_64(x: u128) -> (r: u128)
    ensures
        r == swap64(x),
{
    (swap_32(x & 0xffff_ffff) << 32) | swap_32((x >> 32) & 0xffff_ffff)
}

} // verus!
