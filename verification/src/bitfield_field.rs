//! The fields of a bitfield: how they are declared, and how they are described once their
//! width, offset and access are known.

use vstd::prelude::*;
use crate::bitfield_attribute::{boolean_value, parse_boolean, Argument, ArgumentValue, ValueKind};
use crate::error::{ArgumentError, FieldError};
use crate::text::{ascii_lowercase, equals_ignoring_ascii_case, str_equals};
use crate::types::IntegerType;

verus! {

/// Represents the type of field.
#[derive(Debug, Copy, Clone, PartialEq, Eq, Structural)]
pub enum FieldType {
    /// An integer or a boolean.
    IntegerFieldType,
    /// A nested bitfield, or any other type that converts from and into bits.
    CustomFieldType,
}

/// Represents the access of a field.
#[derive(Debug, Copy, Clone, PartialEq, Eq, Structural)]
pub enum FieldAccess {
    /// The field is read-only.
    ReadOnly,
    /// The field is write-only.
    WriteOnly,
    /// The field is read-write.
    ReadWrite,
    /// The field is inaccessible.
    NoAccess,
}

/// The visibility that a declaration names.
#[derive(Debug, Clone)]
pub enum Visibility {
    /// `pub`.
    Public,
    /// `pub` restricted to a path, with the text of the whole visibility.
    Restricted(String),
    /// No visibility of its own.
    Inherited,
}

/// The arguments of the attribute on a field.
#[derive(Debug, Clone)]
pub struct BitsArguments {
    /// Whether the attribute has a list of arguments at all.
    pub is_list: bool,
    /// The number of bits, where the list begins with one.
    pub bits: Option<u8>,
    /// The `key = value` arguments after it.
    pub arguments: Vec<Argument>,
}

/// One field of the struct, as it is declared.
#[derive(Debug, Clone)]
pub struct FieldDeclaration {
    /// The name of the field.
    pub name: String,
    /// The identifier of the type of the field.
    pub ty: String,
    /// The visibility of the field.
    pub vis: Visibility,
    /// The attribute on the field that gives its bits, if there is one.
    pub bits_attribute: Option<BitsArguments>,
    /// The bits that the default value stands for where it is no literal but the name of a
    /// constant or a call, which this library cannot evaluate. A literal goes by its own
    /// value.
    pub default_constant: u128,
    /// The bits that a custom type gives for zero: what its conversion into bits makes of
    /// what its conversion from bits makes of zero. A primitive goes by zero itself.
    pub zero_constant: u128,
}

/// Represents the attribute on a field.
#[derive(Debug, Clone)]
pub struct BitsAttribute {
    pub bits: Option<u8>,
    pub default_value_expr: Option<ArgumentValue>,
    pub access: Option<FieldAccess>,
    pub ignore: bool,
}

/// Represents a field in a bitfield struct.
#[derive(Debug, Clone)]
pub struct BitfieldField {
    /// The name of the field.
    pub name: String,
    /// The identifier of the type of the field.
    pub ty: String,
    /// What the identifier of the type stands for.
    pub integer_type: IntegerType,
    /// The visibility of the field, where it has one of its own.
    pub vis: Option<Visibility>,
    /// The number of bits the field occupies.
    pub bits: u8,
    /// The offset of the field.
    pub offset: u8,
    /// The text of the default value of the field.
    pub default_value_tokens: Option<String>,
    /// The bits of the default value; 0 without one. A write keeps the low `bits` of them.
    pub default_value: u128,
    /// The bits that are written where the field is set to zero: 0 for a primitive, and
    /// for a custom type the bits that it gives for zero.
    pub zero_value: u128,
    /// Whether the field is unsigned.
    pub unsigned: bool,
    /// Whether the field is padding.
    pub padding: bool,
    /// The access of the field.
    pub access: FieldAccess,
    /// The type of the field.
    pub field_type: FieldType,
    /// Whether the field is ignored.
    pub ignore: bool,
}

/// What a [`BitfieldField`] holds, with its texts as sequences of characters.
pub struct FieldModel {
    pub name: Seq<char>,
    pub ty: Seq<char>,
    pub integer_type: IntegerType,
    pub vis: Option<Visibility>,
    pub bits: u8,
    pub offset: u8,
    pub default_value_tokens: Option<Seq<char>>,
    pub default_value: u128,
    pub zero_value: u128,
    pub unsigned: bool,
    pub padding: bool,
    pub access: FieldAccess,
    pub field_type: FieldType,
    pub ignore: bool,
}

/// What a [`BitsAttribute`] holds.
pub struct BitsModel {
    pub bits: Option<u8>,
    pub default_value_expr: Option<ArgumentValue>,
    pub access: Option<FieldAccess>,
    pub ignore: bool,
}

impl View for BitfieldField {
    type V = FieldModel;

    open spec fn view(&self) -> FieldModel {
        FieldModel {
            name: self.name@,
            ty: self.ty@,
            integer_type: self.integer_type,
            vis: self.vis,
            bits: self.bits,
            offset: self.offset,
            default_value_tokens: match self.default_value_tokens {
                Some(tokens) => Some(tokens@),
                None => None,
            },
            default_value: self.default_value,
            zero_value: self.zero_value,
            unsigned: self.unsigned,
            padding: self.padding,
            access: self.access,
            field_type: self.field_type,
            ignore: self.ignore,
        }
    }
}

impl View for BitsAttribute {
    type V = BitsModel;

    open spec fn view(&self) -> BitsModel {
        BitsModel {
            bits: self.bits,
            default_value_expr: self.default_value_expr,
            access: self.access,
            ignore: self.ignore,
        }
    }
}

/// The access that `s` names, in any case of letters.
pub open spec fn access_of(s: Seq<char>) -> Option<FieldAccess> {
    if ascii_lowercase(s) == "ro"@ {
        Some(FieldAccess::ReadOnly)
    } else if ascii_lowercase(s) == "wo"@ {
        Some(FieldAccess::WriteOnly)
    } else if ascii_lowercase(s) == "rw"@ {
        Some(FieldAccess::ReadWrite)
    } else if ascii_lowercase(s) == "none"@ {
        Some(FieldAccess::NoAccess)
    } else {
        None
    }
}

/// The access that an argument's value gives.
pub open spec fn access_value(value: ArgumentValue) -> Result<FieldAccess, ArgumentError> {
    if value.kind != ValueKind::Identifier {
        Err(ArgumentError::InvalidAccess)
    } else {
        match access_of(value.tokens@) {
            Some(access) => Ok(access),
            None => Err(ArgumentError::InvalidAccess),
        }
    }
}

/// The attribute after one more argument.
pub open spec fn apply_bits_argument(attribute: BitsModel, argument: Argument) -> Result<
    BitsModel,
    ArgumentError,
> {
    let key = argument.key@;
    if key == "default"@ {
        Ok(BitsModel { default_value_expr: Some(argument.value), ..attribute })
    } else if key == "access"@ {
        match access_value(argument.value) {
            Ok(v) => Ok(BitsModel { access: Some(v), ..attribute }),
            Err(e) => Err(e),
        }
    } else if key == "ignore"@ {
        match boolean_value(argument.value) {
            Ok(v) => Ok(BitsModel { ignore: v, ..attribute }),
            Err(e) => Err(e),
        }
    } else {
        Err(ArgumentError::UnknownArgument)
    }
}

/// The attribute after the arguments, applied in order: a later argument overrides an
/// earlier one with the same key, and the first wrong argument is the error.
pub open spec fn apply_bits_arguments(attribute: BitsModel, arguments: Seq<Argument>) -> Result<
    BitsModel,
    FieldError,
>
    decreases arguments.len(),
{
    if arguments.len() == 0 {
        Ok(attribute)
    } else {
        match apply_bits_arguments(attribute, arguments.drop_last()) {
            Err(e) => Err(e),
            Ok(before) => match apply_bits_argument(before, arguments.last()) {
                Ok(after) => Ok(after),
                Err(error) => Err(
                    FieldError::Argument { index: (arguments.len() - 1) as usize, error },
                ),
            },
        }
    }
}

/// The attribute that the number of bits and the arguments describe.
pub open spec fn parse_bits_attribute(bits: Option<u8>, arguments: Seq<Argument>) -> Result<
    BitsModel,
    FieldError,
> {
    apply_bits_arguments(
        BitsModel { bits, default_value_expr: None, access: None, ignore: false },
        arguments,
    )
}

impl FieldAccess {
    /// The access that `s` names.
    pub fn from_str(s: &str) -> (r: Option<FieldAccess>)
        ensures
            r == access_of(s@),
    {
        if equals_ignoring_ascii_case(s, "ro") {
            Some(FieldAccess::ReadOnly)
        } else if equals_ignoring_ascii_case(s, "wo") {
            Some(FieldAccess::WriteOnly)
        } else if equals_ignoring_ascii_case(s, "rw") {
            Some(FieldAccess::ReadWrite)
        } else if equals_ignoring_ascii_case(s, "none") {
            Some(FieldAccess::NoAccess)
        } else {
            None
        }
    }
}

impl ArgumentValue {
    /// A copy of the value.
    pub fn duplicate(&self) -> (r: ArgumentValue)
        ensures
            r == *self,
    {
        ArgumentValue { kind: self.kind, tokens: self.tokens.clone() }
    }
}

impl Visibility {
    /// A copy of the visibility.
    pub fn duplicate(&self) -> (r: Visibility)
        ensures
            r == *self,
    {
        match self {
            Visibility::Public => Visibility::Public,
            Visibility::Restricted(path) => Visibility::Restricted(path.clone()),
            Visibility::Inherited => Visibility::Inherited,
        }
    }
}

fn parse_access(value: &ArgumentValue) -> (r: Result<FieldAccess, ArgumentError>)
    ensures
        r == access_value(*value),
{
    match value.kind {
        ValueKind::Identifier => match FieldAccess::from_str(value.tokens.as_str()) {
            Some(access) => Ok(access),
            None => Err(ArgumentError::InvalidAccess),
        },
        _ => Err(ArgumentError::InvalidAccess),
    }
}

impl BitsAttribute {
    /// Reads the attribute on a field from the number of bits that its list begins with,
    /// if it does, and the `key = value` arguments after it.
    ///
    /// `default` gives the default value, `access` the access and `ignore` whether the
    /// field stays out of the bitfield. A key that is not known is an error.
    pub fn parse(bits: Option<u8>, arguments: &Vec<Argument>) -> (r: Result<
        BitsAttribute,
        FieldError,
    >)
        ensures
            match r {
                Ok(attribute) => parse_bits_attribute(bits, arguments@) == Ok::<
                    BitsModel,
                    FieldError,
                >(attribute@),
                Err(e) => parse_bits_attribute(bits, arguments@) == Err::<BitsModel, FieldError>(e),
            },
    {
        let mut attribute = BitsAttribute {
            bits,
            default_value_expr: None,
            access: None,
            ignore: false,
        };
        let ghost start = attribute@;
        let mut i: usize = 0;
        assert(arguments@.subrange(0, 0).len() == 0);
        while i < arguments.len()
            invariant
                i <= arguments.len(),
                start == (BitsModel {
                    bits,
                    default_value_expr: None,
                    access: None,
                    ignore: false,
                }),
                apply_bits_arguments(start, arguments@.subrange(0, i as int)) == Ok::<
                    BitsModel,
                    FieldError,
                >(attribute@),
            decreases arguments.len() - i,
        {
            let ghost next = arguments@.subrange(0, i + 1);
            assert(next.drop_last() == arguments@.subrange(0, i as int));
            assert(next.last() == arguments@[i as int]);
            let argument = &arguments[i];
            let key = argument.key.as_str();
            let step: Result<(), ArgumentError> = if str_equals(key, "default") {
                attribute.default_value_expr = Some(argument.value.duplicate());
                Ok(())
            } else if str_equals(key, "access") {
                match parse_access(&argument.value) {
                    Ok(v) => {
                        attribute.access = Some(v);
                        Ok(())
                    },
                    Err(e) => Err(e),
                }
            } else if str_equals(key, "ignore") {
                match parse_boolean(&argument.value) {
                    Ok(v) => {
                        attribute.ignore = v;
                        Ok(())
                    },
                    Err(e) => Err(e),
                }
            } else {
                Err(ArgumentError::UnknownArgument)
            };
            match step {
                Ok(()) => {},
                Err(error) => {
                    proof {
                        assert(apply_bits_arguments(start, next) == Err::<BitsModel, FieldError>(
                            FieldError::Argument { index: i, error },
                        ));
                        lemma_apply_bits_arguments_error(start, arguments@, i as int);
                    }
                    return Err(FieldError::Argument { index: i, error });
                },
            }
            i += 1;
        }
        assert(arguments@.subrange(0, i as int) == arguments@);
        Ok(attribute)
    }
}

/// The error of a prefix of the arguments is the error of all of them.
proof fn lemma_apply_bits_arguments_error(attribute: BitsModel, arguments: Seq<Argument>, i: int)
    requires
        0 <= i < arguments.len(),
        apply_bits_arguments(attribute, arguments.subrange(0, i + 1)) is Err,
    ensures
        apply_bits_arguments(attribute, arguments) == apply_bits_arguments(
            attribute,
            arguments.subrange(0, i + 1),
        ),
    decreases arguments.len(),
{
    if i + 1 == arguments.len() {
        assert(arguments.subrange(0, i + 1) == arguments);
    } else {
        assert(arguments.drop_last().subrange(0, i + 1) == arguments.subrange(0, i + 1));
        lemma_apply_bits_arguments_error(attribute, arguments.drop_last(), i);
    }
}

} // verus!
