//! Values of a state machine definition that may be literals or references,
//! and how the ones without numbers are read from JSON.
use vstd::prelude::*;

use crate::string::DotString;
use crate::theming::{as_bool, as_str, bool_of, json_of, text_of, Json, JsonValue};

verus! {

/// A boolean literal, or a `$`-reference to a boolean input.
#[derive(Debug, Clone, PartialEq)]
pub enum StringBool {
    String(String),
    Bool(bool),
}

/// A literal or a reference, in a guard's `compareTo`: a string (a literal,
/// a `$`-reference to an input or an `@`-reference to a built-in), a number
/// (the IEEE-754 bit pattern of an `f32`) or a boolean.
#[derive(Debug, Clone, PartialEq)]
pub enum StringNumberBool {
    String(String),
    F32(u32),
    Bool(bool),
}

/// A number (the IEEE-754 bit pattern of an `f32`), or a reference to a
/// numeric input.
#[derive(Debug, Clone, PartialEq)]
pub enum StringNumber {
    String(String),
    F32(u32),
}

/// A string value.
#[derive(Debug, Clone, PartialEq)]
pub enum StringString {
    String(String),
}

/// A name: a string without a NUL character.
pub open spec fn dot_string_of(v: Json) -> Option<Seq<char>> {
    match as_str(v) {
        Some(t) => if t.contains('\0') {
            None
        } else {
            Some(t)
        },
        None => None,
    }
}

/// A name read from `v` (see `dot_string_of`).
pub fn dot_string(v: &JsonValue) -> (r: Option<DotString>)
    ensures
        match r {
            Some(d) => dot_string_of(json_of(*v)) == Some(d@),
            None => dot_string_of(json_of(*v)) is None,
        },
{
    match text_of(v) {
        Some(t) => match DotString::try_new(t) {
            Ok(d) => Some(d),
            Err(_) => None,
        },
        None => None,
    }
}

/// A string or a boolean, read from `v`.
pub fn string_bool(v: &JsonValue) -> (r: Option<StringBool>)
    ensures
        match r {
            Some(StringBool::String(s)) => as_str(json_of(*v)) == Some(s@),
            Some(StringBool::Bool(b)) => as_bool(json_of(*v)) == Some(b),
            None => as_str(json_of(*v)) is None && as_bool(json_of(*v)) is None,
        },
{
    if let Some(t) = text_of(v) {
        return Some(StringBool::String(t.to_owned()));
    }
    match bool_of(v) {
        Some(b) => Some(StringBool::Bool(b)),
        None => None,
    }
}

} // verus!
