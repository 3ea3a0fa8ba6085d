//! Values of an engine definition that may be literals or references.
use vstd::prelude::*;

verus! {

/// A boolean literal, or a `$`-reference to a boolean input.
#[derive(Debug, Clone, PartialEq)]
pub enum StringBool {
    String(String),
    Bool(bool),
}

/// A literal or a reference, in a guard's `compareTo`: a string (a literal
/// or a `$`-reference to an input), a number (the IEEE-754 bit pattern of an
/// `f32`) or a boolean.
#[derive(Debug, Clone, PartialEq)]
pub enum StringNumberBool {
    String(String),
    F32(u32),
    Bool(bool),
}

/// A number (the IEEE-754 bit pattern of an `f32`), or a reference to a
/// numeric input.
#[derive(Debug, Clone, PartialEq)]
pub enum StringNumber {
    String(String),
    F32(u32),
}

/// A string value.
#[derive(Debug, Clone, PartialEq)]
pub enum StringString {
    String(String),
}

} // verus!
