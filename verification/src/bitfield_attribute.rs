//! The arguments of the attribute on the struct: the policy of a bitfield.

use vstd::prelude::*;
use crate::error::{ArgumentError, AttributeError};
use crate::text::{ascii_lowercase, equals_ignoring_ascii_case, str_equals};
use crate::types::{
    get_bits_from_type, get_integer_type_from_type, integer_type_of, is_backing_type,
    is_supported_bitfield_type, type_bits, IntegerType,
};

verus! {

/// The order of the bits in the bitfield.
///
/// With `Lsb` the first field holds the least significant bits, with `Msb` the most
/// significant ones.
#[derive(Debug, Copy, Clone, PartialEq, Eq, Structural)]
pub enum BitOrder {
    Lsb,
    Msb,
}

/// The endianness of the bytes.
#[derive(Debug, Copy, Clone, PartialEq, Eq, Structural)]
pub enum Endian {
    Little,
    Big,
}

/// What kind of token the value of an argument is.
#[derive(Debug, Copy, Clone, PartialEq, Eq, Structural)]
pub enum ValueKind {
    /// A single identifier that is no keyword.
    Identifier,
    /// `true` or `false`.
    Boolean(bool),
    /// An integer literal.
    Integer,
    /// A unary operator in front of an integer literal.
    UnaryInteger,
    /// Any other expression.
    Other,
}

/// The value of one argument: its kind and its text.
#[derive(Debug, Clone)]
pub struct ArgumentValue {
    pub kind: ValueKind,
    pub tokens: String,
}

/// One `key = value` argument of an attribute.
#[derive(Debug, Clone)]
pub struct Argument {
    pub key: String,
    pub value: ArgumentValue,
}

/// The arguments of the attribute on the struct: the identifier of the backing type, if
/// one is there, and the `key = value` arguments after it.
#[derive(Debug, Clone)]
pub struct AttributeArguments {
    pub ty: Option<String>,
    pub arguments: Vec<Argument>,
}

/// The policy of a bitfield.
#[derive(Debug, Copy, Clone, PartialEq, Eq, Structural)]
pub struct BitfieldAttribute {
    /// The integer type of the bitfield.
    pub ty: IntegerType,
    /// The number of bits of the bitfield.
    pub bits: u8,
    /// The order of the bits in the bitfield.
    pub bit_order: BitOrder,
    /// The endianness of the input of `from_bits`.
    pub from_endian: Endian,
    /// The endianness of the output of `into_bits`.
    pub into_endian: Endian,
    /// Whether to generate the `new` and `new_without_defaults` functions.
    pub generate_new_func: bool,
    /// Whether to generate the `into_bits` function.
    pub generate_into_bits_func: bool,
    /// Whether to generate the `from_bits` functions.
    pub generate_from_bits_func: bool,
    /// Whether to generate the conversions from and into the backing type.
    pub generate_from_trait_funcs: bool,
    /// Whether to generate the default value.
    pub generate_default_impl: bool,
    /// Whether to generate the builder.
    pub generate_builder: bool,
    /// Whether to generate the debug formatting.
    pub generate_debug_impl: bool,
    /// Whether to generate the bit operations.
    pub generate_bit_ops: bool,
    /// Whether to generate the `set_bits` functions.
    pub generate_set_bits_impl: bool,
    /// Whether to generate the `clear_bits` functions.
    pub generate_clear_bits_impl: bool,
}

/// The order that `s` names, in any case of letters.
pub open spec fn bit_order_of(s: Seq<char>) -> Option<BitOrder> {
    if ascii_lowercase(s) == "lsb"@ {
        Some(BitOrder::Lsb)
    } else if ascii_lowercase(s) == "msb"@ {
        Some(BitOrder::Msb)
    } else {
        None
    }
}

/// The endianness that `s` names, in any case of letters.
pub open spec fn endian_of(s: Seq<char>) -> Option<Endian> {
    if ascii_lowercase(s) == "little"@ {
        Some(Endian::Little)
    } else if ascii_lowercase(s) == "big"@ {
        Some(Endian::Big)
    } else {
        None
    }
}

/// The order that an argument's value gives.
pub open spec fn order_value(value: ArgumentValue) -> Result<BitOrder, ArgumentError> {
    if value.kind != ValueKind::Identifier {
        Err(ArgumentError::ExpectedIdentifier)
    } else {
        match bit_order_of(value.tokens@) {
            Some(order) => Ok(order),
            None => Err(ArgumentError::InvalidOrder),
        }
    }
}

/// The endianness that an argument's value gives.
pub open spec fn endian_value(value: ArgumentValue) -> Result<Endian, ArgumentError> {
    if value.kind != ValueKind::Identifier {
        Err(ArgumentError::ExpectedIdentifier)
    } else {
        match endian_of(value.tokens@) {
            Some(endian) => Ok(endian),
            None => Err(ArgumentError::InvalidEndian),
        }
    }
}

/// The boolean that an argument's value gives.
pub open spec fn boolean_value(value: ArgumentValue) -> Result<bool, ArgumentError> {
    match value.kind {
        ValueKind::Boolean(b) => Ok(b),
        _ => Err(ArgumentError::ExpectedBoolean),
    }
}

/// The policy of a bitfield of the given type that names no argument: fields from the
/// least significant bit up, no byte swapped, everything generated but the bit operations.
pub open spec fn default_policy(ty: IntegerType, bits: u8) -> BitfieldAttribute {
    BitfieldAttribute {
        ty,
        bits,
        bit_order: BitOrder::Lsb,
        from_endian: Endian::Big,
        into_endian: Endian::Big,
        generate_new_func: true,
        generate_into_bits_func: true,
        generate_from_bits_func: true,
        generate_from_trait_funcs: true,
        generate_default_impl: true,
        generate_builder: true,
        generate_debug_impl: true,
        generate_bit_ops: false,
        generate_set_bits_impl: true,
        generate_clear_bits_impl: true,
    }
}

/// The policy after one more argument.
pub open spec fn apply_argument(attribute: BitfieldAttribute, argument: Argument) -> Result<
    BitfieldAttribute,
    ArgumentError,
> {
    let key = argument.key@;
    let value = argument.value;
    if key == "order"@ {
        match order_value(value) {
            Ok(v) => Ok(BitfieldAttribute { bit_order: v, ..attribute }),
            Err(e) => Err(e),
        }
    } else if key == "from_endian"@ {
        match endian_value(value) {
            Ok(v) => Ok(BitfieldAttribute { from_endian: v, ..attribute }),
            Err(e) => Err(e),
        }
    } else if key == "into_endian"@ {
        match endian_value(value) {
            Ok(v) => Ok(BitfieldAttribute { into_endian: v, ..attribute }),
            Err(e) => Err(e),
        }
    } else if key == "new"@ {
        match boolean_value(value) {
            Ok(v) => Ok(BitfieldAttribute { generate_new_func: v, ..attribute }),
            Err(e) => Err(e),
        }
    } else if key == "into_bits"@ {
        match boolean_value(value) {
            Ok(v) => Ok(BitfieldAttribute { generate_into_bits_func: v, ..attribute }),
            Err(e) => Err(e),
        }
    } else if key == "from_bits"@ {
        match boolean_value(value) {
            Ok(v) => Ok(BitfieldAttribute { generate_from_bits_func: v, ..attribute }),
            Err(e) => Err(e),
        }
    } else if key == "from"@ {
        match boolean_value(value) {
            Ok(v) => Ok(BitfieldAttribute { generate_from_trait_funcs: v, ..attribute }),
            Err(e) => Err(e),
        }
    } else if key == "default"@ {
        match boolean_value(value) {
            Ok(v) => Ok(BitfieldAttribute { generate_default_impl: v, ..attribute }),
            Err(e) => Err(e),
        }
    } else if key == "builder"@ {
        match boolean_value(value) {
            Ok(v) => Ok(BitfieldAttribute { generate_builder: v, ..attribute }),
            Err(e) => Err(e),
        }
    } else if key == "debug"@ {
        match boolean_value(value) {
            Ok(v) => Ok(BitfieldAttribute { generate_debug_impl: v, ..attribute }),
            Err(e) => Err(e),
        }
    } else if key == "bit_ops"@ {
        match boolean_value(value) {
            Ok(v) => Ok(BitfieldAttribute { generate_bit_ops: v, ..attribute }),
            Err(e) => Err(e),
        }
    } else if key == "set_bits"@ {
        match boolean_value(value) {
            Ok(v) => Ok(BitfieldAttribute { generate_set_bits_impl: v, ..attribute }),
            Err(e) => Err(e),
        }
    } else if key == "clear_bits"@ {
        match boolean_value(value) {
            Ok(v) => Ok(BitfieldAttribute { generate_clear_bits_impl: v, ..attribute }),
            Err(e) => Err(e),
        }
    } else {
        Err(ArgumentError::UnknownArgument)
    }
}

/// The policy after the arguments, applied in order: a later argument overrides an earlier
/// one with the same key, and the first wrong argument is the error.
pub open spec fn apply_arguments(attribute: BitfieldAttribute, arguments: Seq<Argument>) -> Result<
    BitfieldAttribute,
    AttributeError,
>
    decreases arguments.len(),
{
    if arguments.len() == 0 {
        Ok(attribute)
    } else {
        match apply_arguments(attribute, arguments.drop_last()) {
            Err(e) => Err(e),
            Ok(before) => match apply_argument(before, arguments.last()) {
                Ok(after) => Ok(after),
                Err(error) => Err(
                    AttributeError::Argument { index: (arguments.len() - 1) as usize, error },
                ),
            },
        }
    }
}

/// The policy that the arguments of the attribute describe.
pub open spec fn parse_attribute(arguments: AttributeArguments) -> Result<
    BitfieldAttribute,
    AttributeError,
> {
    match arguments.ty {
        None => Err(AttributeError::MissingBackingType),
        Some(ty) => {
            let integer_type = integer_type_of(ty@);
            if !is_backing_type(integer_type) {
                Err(AttributeError::UnsupportedBackingType)
            } else {
                apply_arguments(
                    default_policy(integer_type, type_bits(integer_type).unwrap()),
                    arguments.arguments@,
                )
            }
        },
    }
}

impl BitOrder {
    /// The order that `s` names.
    pub fn from_str(s: &str) -> (r: Option<BitOrder>)
        ensures
            r == bit_order_of(s@),
    {
        if equals_ignoring_ascii_case(s, "lsb") {
            Some(BitOrder::Lsb)
        } else if equals_ignoring_ascii_case(s, "msb") {
            Some(BitOrder::Msb)
        } else {
            None
        }
    }
}

impl Endian {
    /// The endianness that `s` names.
    pub fn from_str(s: &str) -> (r: Option<Endian>)
        ensures
            r == endian_of(s@),
    {
        if equals_ignoring_ascii_case(s, "little") {
            Some(Endian::Little)
        } else if equals_ignoring_ascii_case(s, "big") {
            Some(Endian::Big)
        } else {
            None
        }
    }
}

fn parse_order(value: &ArgumentValue) -> (r: Result<BitOrder, ArgumentError>)
    ensures
        r == order_value(*value),
{
    match value.kind {
        ValueKind::Identifier => match BitOrder::from_str(value.tokens.as_str()) {
            Some(order) => Ok(order),
            None => Err(ArgumentError::InvalidOrder),
        },
        _ => Err(ArgumentError::ExpectedIdentifier),
    }
}

fn parse_endian(value: &ArgumentValue) -> (r: Result<Endian, ArgumentError>)
    ensures
        r == endian_value(*value),
{
    match value.kind {
        ValueKind::Identifier => match Endian::from_str(value.tokens.as_str()) {
            Some(endian) => Ok(endian),
            None => Err(ArgumentError::InvalidEndian),
        },
        _ => Err(ArgumentError::ExpectedIdentifier),
    }
}

/// The boolean that the value of an argument gives.
pub fn parse_boolean(value: &ArgumentValue) -> (r: Result<bool, ArgumentError>)
    ensures
        r == boolean_value(*value),
{
    match value.kind {
        ValueKind::Boolean(b) => Ok(b),
        _ => Err(ArgumentError::ExpectedBoolean),
    }
}

#[verifier::rlimit(50)]
fn parse_argument(attribute: BitfieldAttribute, argument: &Argument) -> (r: Result<
    BitfieldAttribute,
    ArgumentError,
>)
    ensures
        r == apply_argument(attribute, *argument),
{
    let key = argument.key.as_str();
    let value = &argument.value;
    if str_equals(key, "order") {
        match parse_order(value) {
            Ok(v) => Ok(BitfieldAttribute { bit_order: v, ..attribute }),
            Err(e) => Err(e),
        }
    } else if str_equals(key, "from_endian") {
        match parse_endian(value) {
            Ok(v) => Ok(BitfieldAttribute { from_endian: v, ..attribute }),
            Err(e) => Err(e),
        }
    } else if str_equals(key, "into_endian") {
        match parse_endian(value) {
            Ok(v) => Ok(BitfieldAttribute { into_endian: v, ..attribute }),
            Err(e) => Err(e),
        }
    } else if str_equals(key, "new") {
        match parse_boolean(value) {
            Ok(v) => Ok(BitfieldAttribute { generate_new_func: v, ..attribute }),
            Err(e) => Err(e),
        }
    } else if str_equals(key, "into_bits") {
        match parse_boolean(value) {
            Ok(v) => Ok(BitfieldAttribute { generate_into_bits_func: v, ..attribute }),
            Err(e) => Err(e),
        }
    } else if str_equals(key, "from_bits") {
        match parse_boolean(value) {
            Ok(v) => Ok(BitfieldAttribute { generate_from_bits_func: v, ..attribute }),
            Err(e) => Err(e),
        }
    } else if str_equals(key, "from") {
        match parse_boolean(value) {
            Ok(v) => Ok(BitfieldAttribute { generate_from_trait_funcs: v, ..attribute }),
            Err(e) => Err(e),
        }
    } else if str_equals(key, "default") {
        match parse_boolean(value) {
            Ok(v) => Ok(BitfieldAttribute { generate_default_impl: v, ..attribute }),
            Err(e) => Err(e),
        }
    } else if str_equals(key, "builder") {
        match parse_boolean(value) {
            Ok(v) => Ok(BitfieldAttribute { generate_builder: v, ..attribute }),
            Err(e) => Err(e),
        }
    } else if str_equals(key, "debug") {
        match parse_boolean(value) {
            Ok(v) => Ok(BitfieldAttribute { generate_debug_impl: v, ..attribute }),
            Err(e) => Err(e),
        }
    } else if str_equals(key, "bit_ops") {
        match parse_boolean(value) {
            Ok(v) => Ok(BitfieldAttribute { generate_bit_ops: v, ..attribute }),
            Err(e) => Err(e),
        }
    } else if str_equals(key, "set_bits") {
        match parse_boolean(value) {
            Ok(v) => Ok(BitfieldAttribute { generate_set_bits_impl: v, ..attribute }),
            Err(e) => Err(e),
        }
    } else if str_equals(key, "clear_bits") {
        match parse_boolean(value) {
            Ok(v) => Ok(BitfieldAttribute { generate_clear_bits_impl: v, ..attribute }),
            Err(e) => Err(e),
        }
    } else {
        Err(ArgumentError::UnknownArgument)
    }
}

impl BitfieldAttribute {
    /// Reads the policy of a bitfield from the arguments of the attribute on the struct.
    ///
    /// The first argument names the backing type, one of `u8`, `u16`, `u32`, `u64` and
    /// `u128`. Each later argument sets one part of the policy; what no argument sets
    /// keeps its default. A key that is not known is an error.
    pub fn parse(arguments: &AttributeArguments) -> (r: Result<BitfieldAttribute, AttributeError>)
        ensures
            r == parse_attribute(*arguments),
            r is Ok ==> is_backing_type(r->Ok_0.ty) && type_bits(r->Ok_0.ty) == Some(r->Ok_0.bits),
    {
        let ty = match &arguments.ty {
            Some(ty) => ty.as_str(),
            None => {
                return Err(AttributeError::MissingBackingType);
            },
        };
        if !is_supported_bitfield_type(ty) {
            return Err(AttributeError::UnsupportedBackingType);
        }
        let integer_type = get_integer_type_from_type(ty);
        let bits = match get_bits_from_type(ty) {
            Some(bits) => bits,
            None => {
                return Err(AttributeError::UnsupportedBackingType);
            },
        };
        let mut attribute = BitfieldAttribute {
            ty: integer_type,
            bits,
            bit_order: BitOrder::Lsb,
            from_endian: Endian::Big,
            into_endian: Endian::Big,
            generate_new_func: true,
            generate_into_bits_func: true,
            generate_from_bits_func: true,
            generate_from_trait_funcs: true,
            generate_default_impl: true,
            generate_builder: true,
            generate_debug_impl: true,
            generate_bit_ops: false,
            generate_set_bits_impl: true,
            generate_clear_bits_impl: true,
        };
        let mut i: usize = 0;
        assert(arguments.arguments@.subrange(0, 0).len() == 0);
        while i < arguments.arguments.len()
            invariant
                i <= arguments.arguments.len(),
                parse_attribute(*arguments) == apply_arguments(
                    default_policy(integer_type, bits),
                    arguments.arguments@,
                ),
                is_backing_type(integer_type),
                type_bits(integer_type) == Some(bits),
                attribute.ty == integer_type,
                attribute.bits == bits,
                apply_arguments(
                    default_policy(integer_type, bits),
                    arguments.arguments@.subrange(0, i as int),
                ) == Ok::<BitfieldAttribute, AttributeError>(attribute),
            decreases arguments.arguments.len() - i,
        {
            let ghost next = arguments.arguments@.subrange(0, i + 1);
            assert(next.drop_last() == arguments.arguments@.subrange(0, i as int));
            assert(next.last() == arguments.arguments@[i as int]);
            match parse_argument(attribute, &arguments.arguments[i]) {
                Ok(after) => {
                    attribute = after;
                },
                Err(error) => {
                    proof {
                        assert(apply_arguments(default_policy(integer_type, bits), next) == Err::<
                            BitfieldAttribute,
                            AttributeError,
                        >(AttributeError::Argument { index: i, error }));
                        lemma_apply_arguments_error(
                            default_policy(integer_type, bits),
                            arguments.arguments@,
                            i as int,
                        );
                    }
                    return Err(AttributeError::Argument { index: i, error });
                },
            }
            i += 1;
        }
        assert(arguments.arguments@.subrange(0, i as int) == arguments.arguments@);
        Ok(attribute)
    }
}

/// The error of a prefix of the arguments is the error of all of them.
proof fn lemma_apply_arguments_error(
    attribute: BitfieldAttribute,
    arguments: Seq<Argument>,
    i: int,
)
    requires
        0 <= i < arguments.len(),
        apply_arguments(attribute, arguments.subrange(0, i + 1)) is Err,
    ensures
        apply_arguments(attribute, arguments) == apply_arguments(
            attribute,
            arguments.subrange(0, i + 1),
        ),
    decreases arguments.len(),
{
    if i + 1 == arguments.len() {
        assert(arguments.subrange(0, i + 1) == arguments);
    } else {
        assert(arguments.drop_last().subrange(0, i + 1) == arguments.subrange(0, i + 1));
        lemma_apply_arguments_error(attribute, arguments.drop_last(), i);
    }
}

} // verus!
