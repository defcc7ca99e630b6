//! The text of an error, with what the declarations say of the argument or the field
//! that it is about.

use vstd::prelude::*;
use crate::bitfield_attribute::{Argument, AttributeArguments};
use crate::error::{
    argument_message, bitfield_message, ArgumentError, AttributeError, BitfieldError, FieldError,
};
use crate::layout::{packed_declaration, packed_declaration_index, StructDeclaration};
use crate::text::str_equals;

verus! {

/// The text that tells of a wrong argument of the attribute named `attribute`, with the
/// key and the value of the argument.
pub open spec fn argument_diagnostic(
    error: ArgumentError,
    attribute: Seq<char>,
    key: Seq<char>,
    tokens: Seq<char>,
) -> Seq<char> {
    match error {
        ArgumentError::ExpectedIdentifier => if key == "order"@ {
            "Failed to parse the 'order' arg '"@ + tokens + "'."@
        } else {
            "Failed to parse the '"@ + key + "' arg '"@ + tokens
                + "', must be either 'little' or 'big'."@
        },
        ArgumentError::ExpectedBoolean => "Failed to parse the '"@ + key + "' arg '"@ + tokens
            + "', must be either 'true' or 'false'."@,
        ArgumentError::InvalidOrder => "Invalid order: '"@ + tokens
            + "', must be either 'lsb' or 'msb'."@,
        ArgumentError::InvalidEndian => "Invalid endian: '"@ + tokens
            + "', must be either 'little' or 'big'."@,
        ArgumentError::InvalidAccess => argument_message(error),
        ArgumentError::UnknownArgument => "Unknown '"@ + attribute + "' argument: "@ + key,
    }
}

/// The text that tells of the wrong argument at `index` of the arguments; without such an
/// argument, the text of the error alone.
pub open spec fn located_argument(
    error: ArgumentError,
    attribute: Seq<char>,
    arguments: Seq<Argument>,
    index: usize,
) -> Seq<char> {
    if index < arguments.len() {
        argument_diagnostic(
            error,
            attribute,
            arguments[index as int].key@,
            arguments[index as int].value.tokens@,
        )
    } else {
        argument_message(error)
    }
}

/// The text that tells of the error: the key and the value of a wrong argument, the name
/// of a field whose name is used twice, and the numbers that any other error is about.
pub open spec fn diagnostic(
    error: BitfieldError,
    arguments: AttributeArguments,
    declaration: StructDeclaration,
) -> Seq<char> {
    match error {
        BitfieldError::Attribute(AttributeError::Argument { index, error }) => located_argument(
            error,
            "bitfield"@,
            arguments.arguments@,
            index,
        ),
        BitfieldError::Field {
            index,
            error: FieldError::Argument { index: at, error },
        } => if index < declaration.fields@.len() {
            match declaration.fields@[index as int].bits_attribute {
                Some(bits) => located_argument(error, "bits"@, bits.arguments@, at),
                None => argument_message(error),
            }
        } else {
            argument_message(error)
        },
        BitfieldError::DuplicateFieldName { index } => match packed_declaration(
            declaration.fields@,
            0,
            index as int,
        ) {
            Some(at) => "The field name '"@ + declaration.fields@[at].name@
                + "' is duplicated, each field must have a unique name."@,
            None => bitfield_message(error),
        },
        _ => bitfield_message(error),
    }
}

/// Computes [`argument_diagnostic`].
fn describe_argument(error: ArgumentError, attribute: &str, key: &str, tokens: &str) -> (r: String)
    ensures
        r@ == argument_diagnostic(error, attribute@, key@, tokens@),
{
    match error {
        ArgumentError::ExpectedIdentifier => {
            if str_equals(key, "order") {
                String::from_str("Failed to parse the 'order' arg '").concat(tokens).concat("'.")
            } else {
                String::from_str("Failed to parse the '").concat(key).concat("' arg '").concat(
                    tokens,
                ).concat("', must be either 'little' or 'big'.")
            }
        },
        ArgumentError::ExpectedBoolean => String::from_str("Failed to parse the '").concat(
            key,
        ).concat("' arg '").concat(tokens).concat("', must be either 'true' or 'false'."),
        ArgumentError::InvalidOrder => String::from_str("Invalid order: '").concat(tokens).concat(
            "', must be either 'lsb' or 'msb'.",
        ),
        ArgumentError::InvalidEndian => String::from_str("Invalid endian: '").concat(
            tokens,
        ).concat("', must be either 'little' or 'big'."),
        ArgumentError::InvalidAccess => error.message(),
        ArgumentError::UnknownArgument => String::from_str("Unknown '").concat(attribute).concat(
            "' argument: ",
        ).concat(key),
    }
}

/// The text that tells of the wrong argument at `index` of the arguments of the attribute
/// named `attribute`, with the key and the value of the argument.
pub fn describe_argument_error(
    error: ArgumentError,
    attribute: &str,
    arguments: &Vec<Argument>,
    index: usize,
) -> (r: String)
    ensures
        r@ == located_argument(error, attribute@, arguments@, index),
{
    if index < arguments.len() {
        let argument = &arguments[index];
        describe_argument(
            error,
            attribute,
            argument.key.as_str(),
            argument.value.tokens.as_str(),
        )
    } else {
        error.message()
    }
}

/// The text that tells of the error, with what the declarations say of the argument or the
/// field that it is about: a wrong argument is named with its key and quoted with its
/// value, and a field whose name is used twice is named.
pub fn describe(
    error: &BitfieldError,
    arguments: &AttributeArguments,
    declaration: &StructDeclaration,
) -> (r: String)
    ensures
        r@ == diagnostic(*error, *arguments, *declaration),
{
    match error {
        BitfieldError::Attribute(
            AttributeError::Argument { index, error },
        ) => describe_argument_error(*error, "bitfield", &arguments.arguments, *index),
        BitfieldError::Field { index, error: FieldError::Argument { index: at, error } } => {
            if *index < declaration.fields.len() {
                match &declaration.fields[*index].bits_attribute {
                    Some(bits) => describe_argument_error(*error, "bits", &bits.arguments, *at),
                    None => error.message(),
                }
            } else {
                error.message()
            }
        },
        BitfieldError::DuplicateFieldName { index } => {
            match packed_declaration_index(&declaration.fields, *index) {
                Some(at) => String::from_str("The field name '").concat(
                    declaration.fields[at].name.as_str(),
                ).concat("' is duplicated, each field must have a unique name."),
                None => error.message(),
            }
        },
        _ => error.message(),
    }
}

} // verus!
