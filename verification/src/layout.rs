//! From the declared fields to the described fields: width, signedness, access, default
//! value and offset of each, and the checks on the layout as a whole.

use vstd::prelude::*;
use crate::bitfield_attribute::{ArgumentValue, BitOrder, BitfieldAttribute, ValueKind};
use crate::bitfield_field::{
    parse_bits_attribute, BitfieldField, BitsAttribute, BitsModel, FieldAccess, FieldDeclaration,
    FieldModel, FieldType, Visibility,
};
use crate::bits::{field_mask, mask};
use crate::error::{BitfieldError, FieldError};
use crate::number_parser::{parse_number, parse_number_string, NumberParseError, ParsedNumber};
use crate::types::{
    get_bits_from_type, get_integer_suffix_from_integer_type, get_integer_type_from_type,
    integer_type_of, is_unsigned_integer, suffix_of, type_bits, IntegerType,
};

verus! {

/// The struct that the attribute stands on.
#[derive(Debug, Clone)]
pub struct StructDeclaration {
    /// The name of the struct.
    pub name: String,
    /// The visibility of the struct.
    pub vis: Visibility,
    /// The texts of the other attributes on the struct, which are handed on as they are.
    pub attributes: Vec<String>,
    /// Whether the fields of the struct have names.
    pub named_fields: bool,
    /// The fields, in the order in which they are declared.
    pub fields: Vec<FieldDeclaration>,
}

/// The models of the fields, in order.
pub open spec fn models(fields: Seq<BitfieldField>) -> Seq<FieldModel> {
    fields.map_values(|f: BitfieldField| f@)
}

/// The number of bits that the fields hold together.
pub open spec fn total_bits(fields: Seq<FieldModel>) -> nat
    decreases fields.len(),
{
    if fields.len() == 0 {
        0
    } else {
        total_bits(fields.drop_last()) + fields.last().bits as nat
    }
}

/// The offset of a field of `bits` bits that follows fields of `used` bits in all.
///
/// From the least significant bit up, the field begins where the earlier fields end
/// (an offset beyond 255 is given as 255). From the most significant bit down, it ends
/// where they begin; where it does not fit any more, its offset is 0. A layout with
/// either is refused later for its width.
pub open spec fn field_offset(bits: u8, attribute: BitfieldAttribute, used: nat) -> u8 {
    match attribute.bit_order {
        BitOrder::Lsb => if used <= u8::MAX {
            used as u8
        } else {
            u8::MAX
        },
        BitOrder::Msb => if used + bits < attribute.bits {
            (attribute.bits - bits - used) as u8
        } else {
            0
        },
    }
}

/// Whether a field of this name is padding.
pub open spec fn is_padding_name(name: Seq<char>) -> bool {
    name.len() > 0 && name[0] == '_'
}

/// The two's complement of `n`.
pub open spec fn negate(n: u128) -> u128 {
    if n == 0 {
        0
    } else {
        (u128::MAX - n + 1) as u128
    }
}

/// The largest magnitude that a literal of the type can have, by its sign; none for a
/// custom type.
pub open spec fn magnitude_limit(integer_type: IntegerType, negative: bool) -> Option<u128> {
    match integer_type {
        IntegerType::Bool => Some(1),
        IntegerType::U8 => Some(u8::MAX as u128),
        IntegerType::U16 => Some(u16::MAX as u128),
        IntegerType::U32 => Some(u32::MAX as u128),
        IntegerType::U64 => Some(u64::MAX as u128),
        IntegerType::U128 => Some(u128::MAX),
        IntegerType::Usize => Some(usize::MAX as u128),
        IntegerType::Isize => Some(
            if negative {
                (isize::MAX + 1) as u128
            } else {
                isize::MAX as u128
            },
        ),
        IntegerType::I8 => Some(
            if negative {
                0x80
            } else {
                0x7f
            },
        ),
        IntegerType::I16 => Some(
            if negative {
                0x8000
            } else {
                0x7fff
            },
        ),
        IntegerType::I32 => Some(
            if negative {
                0x8000_0000
            } else {
                0x7fff_ffff
            },
        ),
        IntegerType::I64 => Some(
            if negative {
                0x8000_0000_0000_0000
            } else {
                0x7fff_ffff_ffff_ffff
            },
        ),
        IntegerType::I128 => Some(
            if negative {
                0x8000_0000_0000_0000_0000_0000_0000_0000
            } else {
                0x7fff_ffff_ffff_ffff_ffff_ffff_ffff_ffff
            },
        ),
        IntegerType::UnknownInteger => None,
    }
}

/// What the check of a default value against a field of `bits` bits and the given type
/// finds.
///
/// A text that is no literal passes unchecked, with no number. A floating-point literal is
/// refused. A literal is refused where its magnitude does not fit into `bits` bits, and
/// then where it does not fit into the type.
pub open spec fn default_value_fit(text: Seq<char>, bits: u8, integer_type: IntegerType) -> Result<
    Option<ParsedNumber>,
    FieldError,
> {
    match parse_number(text) {
        Err(NumberParseError::FloatNotSupported) => Err(FieldError::FloatDefaultValueUnsupported),
        Err(NumberParseError::InvalidNumberString) => Ok(None),
        Ok(parsed) => if parsed.number > mask(bits) {
            Err(
                FieldError::DefaultValueExceedsFieldWidth {
                    value: parsed.number,
                    negative: parsed.negative,
                    bits,
                },
            )
        } else {
            match magnitude_limit(integer_type, parsed.negative) {
                None => Err(FieldError::UnexpectedConfiguration),
                Some(limit) => if parsed.number > limit {
                    Err(
                        FieldError::DefaultValueExceedsTypeRange {
                            value: parsed.number,
                            negative: parsed.negative,
                            integer_type,
                        },
                    )
                } else {
                    Ok(Some(parsed))
                },
            }
        },
    }
}

/// The text of a literal with the name of the type behind it.
pub open spec fn suffixed_literal(tokens: Seq<char>, integer_type: IntegerType) -> Result<
    Seq<char>,
    FieldError,
> {
    match suffix_of(integer_type) {
        Some(suffix) => Ok(tokens + suffix),
        None => Err(FieldError::UnexpectedConfiguration),
    }
}

/// The text of an expression with the name of the type behind its literal: for an integer
/// literal, with or without a unary operator in front.
pub open spec fn suffixed_expression(expr: ArgumentValue, integer_type: IntegerType) -> Result<
    Seq<char>,
    FieldError,
> {
    match expr.kind {
        ValueKind::Integer | ValueKind::UnaryInteger => suffixed_literal(
            expr.tokens@,
            integer_type,
        ),
        _ => Err(FieldError::UnexpectedConfiguration),
    }
}

/// The visibility of a field's own, if it names one.
pub open spec fn own_visibility(vis: Visibility) -> Option<Visibility> {
    match vis {
        Visibility::Inherited => None,
        _ => Some(vis),
    }
}

/// The kind of a field of the given type.
pub open spec fn kind_of(integer_type: IntegerType) -> FieldType {
    if integer_type == IntegerType::UnknownInteger {
        FieldType::CustomFieldType
    } else {
        FieldType::IntegerFieldType
    }
}

/// The field that a declaration without an attribute describes: as wide as its type,
/// which must be a primitive of a known width, and signed as its type is.
pub open spec fn plain_field(
    attribute: BitfieldAttribute,
    declaration: FieldDeclaration,
    used: nat,
) -> Result<FieldModel, FieldError> {
    let integer_type = integer_type_of(declaration.ty@);
    let padding = is_padding_name(declaration.name@);
    if integer_type == IntegerType::Usize || integer_type == IntegerType::Isize {
        Err(FieldError::AmbiguousWidthFieldType)
    } else if integer_type == IntegerType::UnknownInteger {
        Err(FieldError::MissingExplicitWidth)
    } else {
        let bits = type_bits(integer_type).unwrap();
        Ok(
            FieldModel {
                name: declaration.name@,
                ty: declaration.ty@,
                integer_type,
                vis: own_visibility(declaration.vis),
                bits,
                offset: field_offset(bits, attribute, used),
                default_value_tokens: None,
                default_value: 0,
                zero_value: 0,
                unsigned: is_unsigned_integer(integer_type) || integer_type
                    == IntegerType::Bool,
                padding,
                access: if padding {
                    FieldAccess::NoAccess
                } else {
                    FieldAccess::ReadWrite
                },
                field_type: FieldType::IntegerFieldType,
                ignore: false,
            },
        )
    }
}

/// The field that a declaration marked as ignored describes: it takes no part in the
/// layout.
pub open spec fn ignored_field(declaration: FieldDeclaration) -> FieldModel {
    let integer_type = integer_type_of(declaration.ty@);
    FieldModel {
        name: declaration.name@,
        ty: declaration.ty@,
        integer_type,
        vis: Some(declaration.vis),
        bits: 0,
        offset: 0,
        default_value_tokens: None,
        default_value: 0,
        zero_value: 0,
        unsigned: false,
        padding: is_padding_name(declaration.name@),
        access: FieldAccess::ReadOnly,
        field_type: kind_of(integer_type),
        ignore: true,
    }
}

/// The width of a field: the width that its attribute names, which a primitive must be
/// able to hold, or else the width of its type, which a custom type does not have.
pub open spec fn declared_bits(integer_type: IntegerType, explicit: Option<u8>) -> Result<
    u8,
    FieldError,
> {
    match explicit {
        Some(bits) => if integer_type == IntegerType::UnknownInteger {
            Ok(bits)
        } else {
            match type_bits(integer_type) {
                None => Err(FieldError::UnexpectedConfiguration),
                Some(natural) => if bits > natural {
                    Err(
                        FieldError::FieldTooWideForDeclaredType {
                            integer_type,
                            type_bits: natural,
                            bits,
                        },
                    )
                } else {
                    Ok(bits)
                },
            }
        },
        None => if integer_type == IntegerType::UnknownInteger {
            Err(FieldError::MissingExplicitWidth)
        } else {
            match type_bits(integer_type) {
                None => Err(FieldError::UnexpectedConfiguration),
                Some(natural) => Ok(natural),
            }
        },
    }
}

/// The number that the default value of a primitive field is checked to be; none for a
/// custom field, for a field without a default value and for a default value that is no
/// literal.
pub open spec fn checked_default(
    integer_type: IntegerType,
    expr: Option<ArgumentValue>,
    bits: u8,
) -> Result<Option<ParsedNumber>, FieldError> {
    match expr {
        Some(value) => if integer_type != IntegerType::UnknownInteger {
            default_value_fit(value.tokens@, bits, integer_type)
        } else {
            Ok(None)
        },
        None => Ok(None),
    }
}

/// The access of a field: none for padding, which may name none; else the one that the
/// attribute names, or read and write.
pub open spec fn granted_access(padding: bool, access: Option<FieldAccess>) -> Result<
    FieldAccess,
    FieldError,
> {
    if padding {
        if access.is_some() {
            Err(FieldError::PaddingFieldWithExplicitAccess)
        } else {
            Ok(FieldAccess::NoAccess)
        }
    } else {
        match access {
            Some(a) => Ok(a),
            None => Ok(FieldAccess::ReadWrite),
        }
    }
}

/// The text of the default value as it is handed on: a literal of a signed field that
/// does not name its type gets the name of the field's type behind it.
pub open spec fn default_tokens(
    expr: Option<ArgumentValue>,
    unsigned: bool,
    integer_type: IntegerType,
    parsed: Option<ParsedNumber>,
) -> Result<Option<Seq<char>>, FieldError> {
    match expr {
        None => Ok(None),
        Some(value) => if unsigned || parsed.is_none() || parsed.unwrap().has_integer_suffix {
            Ok(Some(value.tokens@))
        } else {
            match suffixed_expression(value, integer_type) {
                Ok(tokens) => Ok(Some(tokens)),
                Err(e) => Err(e),
            }
        },
    }
}

/// The bits of the default value: of a literal its number, in two's complement where it
/// is negative; of any other default value the constant that the declaration gives for
/// it; 0 without a default value.
pub open spec fn default_bits(
    expr: Option<ArgumentValue>,
    parsed: Option<ParsedNumber>,
    constant: u128,
) -> u128 {
    if expr.is_none() {
        0
    } else {
        match parsed {
            Some(p) => if p.negative {
                negate(p.number)
            } else {
                p.number
            },
            None => constant,
        }
    }
}

/// The field that a declaration with an attribute describes, once the attribute is read
/// and does not mark the field as ignored.
pub open spec fn packed_field(
    attribute: BitfieldAttribute,
    declaration: FieldDeclaration,
    bits_attribute: BitsModel,
    used: nat,
) -> Result<FieldModel, FieldError> {
    let integer_type = integer_type_of(declaration.ty@);
    let padding = is_padding_name(declaration.name@);
    let unsigned = integer_type == IntegerType::UnknownInteger || is_unsigned_integer(
        integer_type,
    ) || integer_type == IntegerType::Bool;
    match declared_bits(integer_type, bits_attribute.bits) {
        Err(e) => Err(e),
        Ok(bits) => if bits == 0 {
            Err(FieldError::ZeroWidthField)
        } else {
            match checked_default(integer_type, bits_attribute.default_value_expr, bits) {
                Err(e) => Err(e),
                Ok(parsed) => match granted_access(padding, bits_attribute.access) {
                    Err(e) => Err(e),
                    Ok(access) => match default_tokens(
                        bits_attribute.default_value_expr,
                        unsigned,
                        integer_type,
                        parsed,
                    ) {
                        Err(e) => Err(e),
                        Ok(tokens) => Ok(
                            FieldModel {
                                name: declaration.name@,
                                ty: declaration.ty@,
                                integer_type,
                                vis: own_visibility(declaration.vis),
                                bits,
                                offset: field_offset(bits, attribute, used),
                                default_value_tokens: tokens,
                                default_value: default_bits(
                                    bits_attribute.default_value_expr,
                                    parsed,
                                    declaration.default_constant,
                                ),
                                zero_value: if integer_type == IntegerType::UnknownInteger {
                                    declaration.zero_constant
                                } else {
                                    0
                                },
                                unsigned,
                                padding,
                                access,
                                field_type: kind_of(integer_type),
                                ignore: false,
                            },
                        ),
                    },
                },
            }
        },
    }
}

/// The field that a declaration describes, after fields of `used` bits in all.
pub open spec fn described_field(
    attribute: BitfieldAttribute,
    declaration: FieldDeclaration,
    used: nat,
) -> Result<FieldModel, FieldError> {
    match declaration.bits_attribute {
        None => plain_field(attribute, declaration, used),
        Some(arguments) => if !arguments.is_list {
            Err(FieldError::BitsAttributeNotList)
        } else {
            match parse_bits_attribute(arguments.bits, arguments.arguments@) {
                Err(e) => Err(e),
                Ok(bits_attribute) => if bits_attribute.ignore {
                    Ok(ignored_field(declaration))
                } else {
                    packed_field(attribute, declaration, bits_attribute, used)
                },
            }
        },
    }
}

/// The packed and the ignored fields that the declarations describe, each list in the
/// order of the declarations; or the error of the first declaration that has one.
pub open spec fn described_fields(
    attribute: BitfieldAttribute,
    declarations: Seq<FieldDeclaration>,
) -> Result<(Seq<FieldModel>, Seq<FieldModel>), BitfieldError>
    decreases declarations.len(),
{
    if declarations.len() == 0 {
        Ok((Seq::empty(), Seq::empty()))
    } else {
        match described_fields(attribute, declarations.drop_last()) {
            Err(e) => Err(e),
            Ok((fields, ignored)) => match described_field(
                attribute,
                declarations.last(),
                total_bits(fields),
            ) {
                Err(error) => Err(
                    BitfieldError::Field { index: (declarations.len() - 1) as usize, error },
                ),
                Ok(field) => if field.ignore {
                    Ok((fields, ignored.push(field)))
                } else {
                    Ok((fields.push(field), ignored))
                },
            },
        }
    }
}

/// Whether the field at `index` has the name of an earlier field that is no padding.
pub open spec fn repeats_name(fields: Seq<FieldModel>, index: int) -> bool {
    exists|i: int| 0 <= i < index && !(#[trigger] fields[i]).padding && fields[i].name == fields[index].name
}

/// The bits of the first `n` fields are at most 255 each.
proof fn lemma_total_bits_bound(fields: Seq<FieldModel>)
    ensures
        total_bits(fields) <= 255 * fields.len(),
    decreases fields.len(),
{
    if fields.len() > 0 {
        lemma_total_bits_bound(fields.drop_last());
    }
}

/// Computes [`total_bits`].
pub fn sum_bits(fields: &Vec<BitfieldField>) -> (total: u128)
    ensures
        total == total_bits(models(fields@)),
{
    let mut total: u128 = 0;
    let mut i: usize = 0;
    assert(models(fields@).subrange(0, 0).len() == 0);
    while i < fields.len()
        invariant
            i <= fields.len(),
            total == total_bits(models(fields@).subrange(0, i as int)),
        decreases fields.len() - i,
    {
        proof {
            let next = models(fields@).subrange(0, i + 1);
            assert(next.drop_last() == models(fields@).subrange(0, i as int));
            assert(next.last() == fields@[i as int]@);
            lemma_total_bits_bound(next.drop_last());
        }
        total = total + fields[i].bits as u128;
        i += 1;
    }
    assert(models(fields@).subrange(0, i as int) == models(fields@));
    total
}

/// Calculate the offset of a field based on previous fields.
pub fn calculate_field_offset(
    bits: u8,
    bitfield_attribute: &BitfieldAttribute,
    prev_fields: &Vec<BitfieldField>,
) -> (offset: u8)
    ensures
        offset == field_offset(bits, *bitfield_attribute, total_bits(models(prev_fields@))),
{
    let used = sum_bits(prev_fields);
    match bitfield_attribute.bit_order {
        BitOrder::Lsb => {
            if used <= 255 {
                used as u8
            } else {
                255
            }
        },
        BitOrder::Msb => {
            let width = bitfield_attribute.bits as u128;
            if used < width && bits as u128 <= width && used < width - bits as u128 {
                let used_bits: u8 = used as u8;
                bitfield_attribute.bits - bits - used_bits
            } else {
                0
            }
        },
    }
}


/// Checks if the default value can fit in the field bits.
///
/// `Ok(None)` stands for a default value that is no literal and so is not checked.
pub fn check_default_value_fit_in_field(default_value_expr: &str, bits: u8, field_type: &str) -> (r:
    Result<Option<ParsedNumber>, FieldError>)
    ensures
        r == default_value_fit(default_value_expr@, bits, integer_type_of(field_type@)),
{
    let parsed_number = match parse_number_string(default_value_expr) {
        Ok(number) => number,
        Err(NumberParseError::FloatNotSupported) => {
            return Err(FieldError::FloatDefaultValueUnsupported);
        },
        Err(NumberParseError::InvalidNumberString) => {
            return Ok(None);
        },
    };
    if parsed_number.number > field_mask(bits) {
        return Err(
            FieldError::DefaultValueExceedsFieldWidth {
                value: parsed_number.number,
                negative: parsed_number.negative,
                bits,
            },
        );
    }
    let negative = parsed_number.negative;
    let integer_type = get_integer_type_from_type(field_type);
    let limit: u128 = match integer_type {
        IntegerType::Bool => 1,
        IntegerType::U8 => u8::MAX as u128,
        IntegerType::U16 => u16::MAX as u128,
        IntegerType::U32 => u32::MAX as u128,
        IntegerType::U64 => u64::MAX as u128,
        IntegerType::U128 => u128::MAX,
        IntegerType::Usize => usize::MAX as u128,
        IntegerType::Isize => if negative {
            isize::MAX as u128 + 1
        } else {
            isize::MAX as u128
        },
        IntegerType::I8 => if negative {
            0x80
        } else {
            0x7f
        },
        IntegerType::I16 => if negative {
            0x8000
        } else {
            0x7fff
        },
        IntegerType::I32 => if negative {
            0x8000_0000
        } else {
            0x7fff_ffff
        },
        IntegerType::I64 => if negative {
            0x8000_0000_0000_0000
        } else {
            0x7fff_ffff_ffff_ffff
        },
        IntegerType::I128 => if negative {
            0x8000_0000_0000_0000_0000_0000_0000_0000
        } else {
            0x7fff_ffff_ffff_ffff_ffff_ffff_ffff_ffff
        },
        IntegerType::UnknownInteger => {
            return Err(FieldError::UnexpectedConfiguration);
        },
    };
    if parsed_number.number > limit {
        return Err(
            FieldError::DefaultValueExceedsTypeRange {
                value: parsed_number.number,
                negative: parsed_number.negative,
                integer_type,
            },
        );
    }
    Ok(Some(parsed_number))
}

/// Helper for creating an integer literal with the integer suffix: the text of the
/// literal with the name of the field's type behind it.
pub fn create_expr_lit_with_integer_suffix(lit: &str, field_type: &str) -> (r: Result<
    String,
    FieldError,
>)
    ensures
        match r {
            Ok(tokens) => suffixed_literal(lit@, integer_type_of(field_type@)) == Ok::<
                Seq<char>,
                FieldError,
            >(tokens@),
            Err(e) => suffixed_literal(lit@, integer_type_of(field_type@)) == Err::<
                Seq<char>,
                FieldError,
            >(e),
        },
{
    let integer_type = get_integer_type_from_type(field_type);
    match get_integer_suffix_from_integer_type(integer_type) {
        Some(suffix) => Ok(String::from_str(lit).concat(suffix.as_str())),
        None => Err(FieldError::UnexpectedConfiguration),
    }
}

/// Adds the field type integer literal suffix to the expression.
///
/// For example, if the expression is `-1` and the field type is `i8`, the expression
/// becomes `-1i8`. Any expression but an integer literal, with or without a unary
/// operator in front, is refused.
pub fn add_integer_literals_to_expr(expr: &ArgumentValue, field_type: &str) -> (r: Result<
    String,
    FieldError,
>)
    ensures
        match r {
            Ok(tokens) => suffixed_expression(*expr, integer_type_of(field_type@)) == Ok::<
                Seq<char>,
                FieldError,
            >(tokens@),
            Err(e) => suffixed_expression(*expr, integer_type_of(field_type@)) == Err::<
                Seq<char>,
                FieldError,
            >(e),
        },
{
    match expr.kind {
        ValueKind::UnaryInteger => create_expr_lit_with_integer_suffix(
            expr.tokens.as_str(),
            field_type,
        ),
        ValueKind::Integer => create_expr_lit_with_integer_suffix(expr.tokens.as_str(), field_type),
        _ => Err(FieldError::UnexpectedConfiguration),
    }
}

/// Whether the name is that of a padding field.
fn is_padding(name: &str) -> (r: bool)
    ensures
        r == is_padding_name(name@),
{
    name.unicode_len() > 0 && name.get_char(0) == '_'
}

/// Computes [`negate`].
fn two_complement(n: u128) -> (r: u128)
    ensures
        r == negate(n),
{
    if n == 0 {
        0
    } else {
        u128::MAX - n + 1
    }
}

/// The result of a function that gives a field is the given result of its model.
pub open spec fn gives(
    r: Result<BitfieldField, FieldError>,
    expected: Result<FieldModel, FieldError>,
) -> bool {
    match r {
        Ok(field) => expected == Ok::<FieldModel, FieldError>(field@),
        Err(e) => expected == Err::<FieldModel, FieldError>(e),
    }
}

/// Describes a field that has an attribute which does not mark it as ignored.
fn parse_packed_field(
    bitfield_attribute: &BitfieldAttribute,
    field: &FieldDeclaration,
    bits_attribute: &BitsAttribute,
    prev_fields: &Vec<BitfieldField>,
) -> (r: Result<BitfieldField, FieldError>)
    ensures
        gives(
            r,
            packed_field(
                *bitfield_attribute,
                *field,
                bits_attribute@,
                total_bits(models(prev_fields@)),
            ),
        ),
{
    let ty = field.ty.as_str();
    let integer_type = get_integer_type_from_type(ty);
    let custom = integer_type == IntegerType::UnknownInteger;
    let padding = is_padding(field.name.as_str());
    let bits = match bits_attribute.bits {
        Some(bits) => {
            if !custom {
                match get_bits_from_type(ty) {
                    None => {
                        return Err(FieldError::UnexpectedConfiguration);
                    },
                    Some(natural) => {
                        if bits > natural {
                            return Err(
                                FieldError::FieldTooWideForDeclaredType {
                                    integer_type,
                                    type_bits: natural,
                                    bits,
                                },
                            );
                        }
                    },
                }
            }
            bits
        },
        None => {
            if custom {
                return Err(FieldError::MissingExplicitWidth);
            }
            match get_bits_from_type(ty) {
                None => {
                    return Err(FieldError::UnexpectedConfiguration);
                },
                Some(natural) => natural,
            }
        },
    };
    if bits == 0 {
        return Err(FieldError::ZeroWidthField);
    }
    let parsed_number = match &bits_attribute.default_value_expr {
        Some(expr) => {
            if !custom {
                check_default_value_fit_in_field(expr.tokens.as_str(), bits, ty)?
            } else {
                None
            }
        },
        None => None,
    };
    let unsigned = custom || integer_type == IntegerType::U8 || integer_type == IntegerType::U16
        || integer_type == IntegerType::U32 || integer_type == IntegerType::U64 || integer_type
        == IntegerType::U128 || integer_type == IntegerType::Usize || integer_type
        == IntegerType::Bool;
    let access = if padding {
        if bits_attribute.access.is_some() {
            return Err(FieldError::PaddingFieldWithExplicitAccess);
        }
        FieldAccess::NoAccess
    } else {
        match bits_attribute.access {
            Some(access) => access,
            None => FieldAccess::ReadWrite,
        }
    };
    let offset = calculate_field_offset(bits, bitfield_attribute, prev_fields);
    let default_value_tokens = match &bits_attribute.default_value_expr {
        None => None,
        Some(expr) => {
            let plain = match parsed_number {
                None => true,
                Some(number) => number.has_integer_suffix,
            };
            if unsigned || plain {
                Some(expr.tokens.clone())
            } else {
                Some(add_integer_literals_to_expr(expr, ty)?)
            }
        },
    };
    let default_value = match &bits_attribute.default_value_expr {
        None => 0,
        Some(_) => match parsed_number {
            Some(number) => if number.negative {
                two_complement(number.number)
            } else {
                number.number
            },
            None => field.default_constant,
        },
    };
    Ok(
        BitfieldField {
            name: field.name.clone(),
            ty: field.ty.clone(),
            integer_type,
            vis: match &field.vis {
                Visibility::Inherited => None,
                vis => Some(vis.duplicate()),
            },
            bits,
            offset,
            default_value_tokens,
            default_value,
            zero_value: if custom {
                field.zero_constant
            } else {
                0
            },
            unsigned,
            padding,
            access,
            field_type: if custom {
                FieldType::CustomFieldType
            } else {
                FieldType::IntegerFieldType
            },
            ignore: false,
        },
    )
}

/// Describes a single field: its width, signedness, access, default value and offset
/// behind the fields described before it.
///
/// Without an attribute the field is as wide as its type. With one, the attribute gives
/// the width, the default value, the access, and whether the field is ignored; the width
/// and a literal default value are checked against the type.
pub fn do_parse_field(
    bitfield_attribute: &BitfieldAttribute,
    field: &FieldDeclaration,
    prev_fields: &Vec<BitfieldField>,
) -> (r: Result<BitfieldField, FieldError>)
    ensures
        gives(
            r,
            described_field(*bitfield_attribute, *field, total_bits(models(prev_fields@))),
        ),
{
    let ty = field.ty.as_str();
    let integer_type = get_integer_type_from_type(ty);
    let custom = integer_type == IntegerType::UnknownInteger;
    let padding = is_padding(field.name.as_str());
    match &field.bits_attribute {
        None => {
            if integer_type == IntegerType::Usize || integer_type == IntegerType::Isize {
                return Err(FieldError::AmbiguousWidthFieldType);
            }
            if custom {
                return Err(FieldError::MissingExplicitWidth);
            }
            let bits = match get_bits_from_type(ty) {
                Some(bits) => bits,
                None => {
                    return Err(FieldError::UnexpectedConfiguration);
                },
            };
            let offset = calculate_field_offset(bits, bitfield_attribute, prev_fields);
            let unsigned = integer_type == IntegerType::U8 || integer_type == IntegerType::U16
                || integer_type == IntegerType::U32 || integer_type == IntegerType::U64
                || integer_type == IntegerType::U128 || integer_type == IntegerType::Bool;
            Ok(
                BitfieldField {
                    name: field.name.clone(),
                    ty: field.ty.clone(),
                    integer_type,
                    vis: match &field.vis {
                        Visibility::Inherited => None,
                        vis => Some(vis.duplicate()),
                    },
                    bits,
                    offset,
                    default_value_tokens: None,
                    default_value: 0,
                    zero_value: 0,
                    unsigned,
                    padding,
                    access: if padding {
                        FieldAccess::NoAccess
                    } else {
                        FieldAccess::ReadWrite
                    },
                    field_type: FieldType::IntegerFieldType,
                    ignore: false,
                },
            )
        },
        Some(arguments) => {
            if !arguments.is_list {
                return Err(FieldError::BitsAttributeNotList);
            }
            let bits_attribute = BitsAttribute::parse(arguments.bits, &arguments.arguments)?;
            if bits_attribute.ignore {
                return Ok(
                    BitfieldField {
                        name: field.name.clone(),
                        ty: field.ty.clone(),
                        integer_type,
                        vis: Some(field.vis.duplicate()),
                        bits: 0,
                        offset: 0,
                        default_value_tokens: None,
                        default_value: 0,
                        zero_value: 0,
                        unsigned: false,
                        padding,
                        access: FieldAccess::ReadOnly,
                        field_type: if custom {
                            FieldType::CustomFieldType
                        } else {
                            FieldType::IntegerFieldType
                        },
                        ignore: true,
                    },
                );
            }
            parse_packed_field(bitfield_attribute, field, &bits_attribute, prev_fields)
        },
    }
}


/// The fields that a struct without named fields, or else its declarations, describe.
pub open spec fn struct_fields(attribute: BitfieldAttribute, declaration: StructDeclaration) -> Result<
    (Seq<FieldModel>, Seq<FieldModel>),
    BitfieldError,
> {
    if !declaration.named_fields {
        Err(BitfieldError::NonNamedFields)
    } else {
        described_fields(attribute, declaration.fields@)
    }
}

/// The error of a prefix of the declarations is the error of all of them.
proof fn lemma_described_fields_error(
    attribute: BitfieldAttribute,
    declarations: Seq<FieldDeclaration>,
    i: int,
)
    requires
        0 <= i < declarations.len(),
        described_fields(attribute, declarations.subrange(0, i + 1)) is Err,
    ensures
        described_fields(attribute, declarations) == described_fields(
            attribute,
            declarations.subrange(0, i + 1),
        ),
    decreases declarations.len(),
{
    if i + 1 == declarations.len() {
        assert(declarations.subrange(0, i + 1) == declarations);
    } else {
        assert(declarations.drop_last().subrange(0, i + 1) == declarations.subrange(0, i + 1));
        lemma_described_fields_error(attribute, declarations.drop_last(), i);
    }
}

/// Parses all the fields into a list of packed fields and a list of ignored fields.
pub fn parse_fields(bitfield_attribute: &BitfieldAttribute, struct_tokens: &StructDeclaration) -> (r:
    Result<(Vec<BitfieldField>, Vec<BitfieldField>), BitfieldError>)
    ensures
        match r {
            Ok((fields, ignored_fields)) => struct_fields(*bitfield_attribute, *struct_tokens)
                == Ok::<(Seq<FieldModel>, Seq<FieldModel>), BitfieldError>(
                (models(fields@), models(ignored_fields@)),
            ),
            Err(e) => struct_fields(*bitfield_attribute, *struct_tokens) == Err::<
                (Seq<FieldModel>, Seq<FieldModel>),
                BitfieldError,
            >(e),
        },
{
    if !struct_tokens.named_fields {
        return Err(BitfieldError::NonNamedFields);
    }
    let mut fields: Vec<BitfieldField> = Vec::new();
    let mut ignored_fields: Vec<BitfieldField> = Vec::new();
    let mut i: usize = 0;
    assert(struct_tokens.fields@.subrange(0, 0).len() == 0);
    assert(models(fields@) == Seq::<FieldModel>::empty());
    assert(models(ignored_fields@) == Seq::<FieldModel>::empty());
    while i < struct_tokens.fields.len()
        invariant
            i <= struct_tokens.fields.len(),
            struct_tokens.named_fields,
            described_fields(*bitfield_attribute, struct_tokens.fields@.subrange(0, i as int))
                == Ok::<(Seq<FieldModel>, Seq<FieldModel>), BitfieldError>(
                (models(fields@), models(ignored_fields@)),
            ),
        decreases struct_tokens.fields.len() - i,
    {
        let ghost next = struct_tokens.fields@.subrange(0, i + 1);
        assert(next.drop_last() == struct_tokens.fields@.subrange(0, i as int));
        assert(next.last() == struct_tokens.fields@[i as int]);
        match do_parse_field(bitfield_attribute, &struct_tokens.fields[i], &fields) {
            Ok(field) => {
                let ghost before = models(fields@);
                let ghost before_ignored = models(ignored_fields@);
                if field.ignore {
                    ignored_fields.push(field);
                    assert(models(ignored_fields@) == before_ignored.push(field@));
                } else {
                    fields.push(field);
                    assert(models(fields@) == before.push(field@));
                }
            },
            Err(error) => {
                proof {
                    assert(described_fields(*bitfield_attribute, next) == Err::<
                        (Seq<FieldModel>, Seq<FieldModel>),
                        BitfieldError,
                    >(BitfieldError::Field { index: i, error }));
                    lemma_described_fields_error(
                        *bitfield_attribute,
                        struct_tokens.fields@,
                        i as int,
                    );
                }
                return Err(BitfieldError::Field { index: i, error });
            },
        }
        i += 1;
    }
    assert(struct_tokens.fields@.subrange(0, i as int) == struct_tokens.fields@);
    Ok((fields, ignored_fields))
}

/// Check if the bitfield type can contain the field bits: the fields must hold exactly
/// as many bits as the bitfield.
pub fn check_bitfield_type_contain_field_bits(
    bitfield_attribute: &BitfieldAttribute,
    fields: &Vec<BitfieldField>,
) -> (r: Result<(), BitfieldError>)
    ensures
        r is Ok <==> total_bits(models(fields@)) == bitfield_attribute.bits,
        total_bits(models(fields@)) > bitfield_attribute.bits ==> r == Err::<(), BitfieldError>(
            BitfieldError::LayoutBudgetExceeded {
                total: total_bits(models(fields@)) as u128,
                bits: bitfield_attribute.bits,
            },
        ),
        total_bits(models(fields@)) < bitfield_attribute.bits ==> r == Err::<(), BitfieldError>(
            BitfieldError::LayoutBudgetUnderfilled {
                total: total_bits(models(fields@)) as u128,
                bits: bitfield_attribute.bits,
                remaining: (bitfield_attribute.bits - total_bits(models(fields@))) as u8,
            },
        ),
{
    let total_field_bits = sum_bits(fields);
    let bits = bitfield_attribute.bits;
    if total_field_bits > bits as u128 {
        Err(BitfieldError::LayoutBudgetExceeded { total: total_field_bits, bits })
    } else if total_field_bits < bits as u128 {
        let remaining_bits = bits - total_field_bits as u8;
        Err(
            BitfieldError::LayoutBudgetUnderfilled {
                total: total_field_bits,
                bits,
                remaining: remaining_bits,
            },
        )
    } else {
        Ok(())
    }
}

/// Checks that no field has the name of an earlier field that is no padding: the first
/// field that has is the error.
pub fn check_bitfield_names_unique(fields: &Vec<BitfieldField>) -> (r: Result<(), BitfieldError>)
    ensures
        match r {
            Ok(()) => forall|j: int| 0 <= j < fields@.len() ==> !repeats_name(models(fields@), j),
            Err(BitfieldError::DuplicateFieldName { index }) => index < fields@.len()
                && repeats_name(models(fields@), index as int) && forall|j: int|
                0 <= j < index ==> !repeats_name(models(fields@), j),
            Err(_) => false,
        },
{
    let mut j: usize = 0;
    while j < fields.len()
        invariant
            j <= fields.len(),
            forall|k: int| 0 <= k < j ==> !repeats_name(models(fields@), k),
        decreases fields.len() - j,
    {
        let mut i: usize = 0;
        while i < j
            invariant
                i <= j < fields.len(),
                forall|k: int| 0 <= k < j ==> !repeats_name(models(fields@), k),
                forall|k: int|
                    0 <= k < i ==> !(!(#[trigger] models(fields@)[k]).padding && models(
                        fields@,
                    )[k].name == models(fields@)[j as int].name),
            decreases j - i,
        {
            if !fields[i].padding && fields[i].name == fields[j].name {
                assert(!models(fields@)[i as int].padding && models(fields@)[i as int].name
                    == models(fields@)[j as int].name);
                assert(repeats_name(models(fields@), j as int));
                return Err(BitfieldError::DuplicateFieldName { index: j });
            }
            i += 1;
        }
        j += 1;
    }
    Ok(())
}


/// Whether the attribute on the declared field marks it as ignored.
pub open spec fn declares_ignored(declaration: FieldDeclaration) -> bool {
    match declaration.bits_attribute {
        Some(arguments) => arguments.is_list && (match parse_bits_attribute(
            arguments.bits,
            arguments.arguments@,
        ) {
            Ok(attribute) => attribute.ignore,
            Err(_) => false,
        }),
        None => false,
    }
}

/// Where, from `start` on, the declaration of the packed field at `index` stands: the
/// declarations that are marked as ignored are not counted.
pub open spec fn packed_declaration(
    declarations: Seq<FieldDeclaration>,
    start: int,
    index: int,
) -> Option<int>
    decreases declarations.len() - start,
{
    if start < 0 || start >= declarations.len() {
        None
    } else if declares_ignored(declarations[start]) {
        packed_declaration(declarations, start + 1, index)
    } else if index == 0 {
        Some(start)
    } else {
        packed_declaration(declarations, start + 1, index - 1)
    }
}

/// Computes [`declares_ignored`].
fn is_declared_ignored(declaration: &FieldDeclaration) -> (r: bool)
    ensures
        r == declares_ignored(*declaration),
{
    match &declaration.bits_attribute {
        Some(arguments) => {
            if !arguments.is_list {
                return false;
            }
            match BitsAttribute::parse(arguments.bits, &arguments.arguments) {
                Ok(attribute) => attribute.ignore,
                Err(_) => false,
            }
        },
        None => false,
    }
}

/// The index, among the declared fields, of the packed field at `index`: where a later
/// step names a packed field by its index, this finds its declaration.
pub fn packed_declaration_index(declarations: &Vec<FieldDeclaration>, index: usize) -> (r: Option<
    usize,
>)
    ensures
        match r {
            Some(at) => packed_declaration(declarations@, 0, index as int) == Some(at as int) && at
                < declarations@.len(),
            None => packed_declaration(declarations@, 0, index as int).is_none(),
        },
{
    let mut at: usize = 0;
    let mut remaining: usize = index;
    while at < declarations.len()
        invariant
            at <= declarations.len(),
            remaining <= index,
            packed_declaration(declarations@, 0, index as int) == packed_declaration(
                declarations@,
                at as int,
                remaining as int,
            ),
        decreases declarations.len() - at,
    {
        if !is_declared_ignored(&declarations[at]) {
            if remaining == 0 {
                return Some(at);
            }
            remaining -= 1;
        }
        at += 1;
    }
    None
}

} // verus!
