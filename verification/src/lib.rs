//! A bit-layout compiler for packed bitfields.
//!
//! A bitfield is a struct whose fields are packed into one unsigned integer of 8, 16, 32,
//! 64 or 128 bits. From the declaration of the struct and the arguments of its attribute,
//! [`bitfield::bitfield`] computes the width, offset, signedness, access and default value
//! of every field, checks that the fields fill the integer exactly, and generates the
//! operations of the bitfield: constructors, getters, setters, conversions from and into
//! bits, bit operations, a builder and the debug formatting.
//!
//! - [`number_parser`] reads the text of a default value as a literal.
//! - [`types`], [`bitfield_attribute`] and [`bitfield_field`] hold the policy of a
//!   bitfield and the declarations and descriptions of its fields.
//! - [`layout`] describes the fields and checks the layout; [`geometry`] shows where the
//!   fields of an accepted layout lie.
//! - [`bits`] and [`operations`] define what the operations on one field compute,
//!   [`assignments`] what the operations on many fields do.
//! - [`generation`] and [`bitfield`] generate the operations and evaluate them on a
//!   backing integer.
//! - [`laws`] proves what holds of the operations of every accepted bitfield.
//! - [`error`] names what can go wrong, [`diagnostics`] tells of an error with the names
//!   and values that it is about, and [`text`] holds helpers over strings.

pub mod assignments;
pub mod bitfield;
pub mod bitfield_attribute;
pub mod bitfield_field;
pub mod bits;
pub mod diagnostics;
pub mod error;
pub mod generation;
pub mod geometry;
pub mod laws;
pub mod layout;
pub mod number_parser;
pub mod operations;
pub mod text;
pub mod types;
