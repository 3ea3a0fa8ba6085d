//! Actions run on state entry and exit and by interactions.
use vstd::prelude::*;

pub mod effects;
pub mod whitelist;

use crate::state_machine::definition::{StringBool, StringNumber};
use crate::state_machine::inputs::{InputManager, InputsView};
use crate::state_machine::transitions::guard::{numeric_reference, resolve_numeric_ref};
use crate::string::{DotString, DotStringInterner};

verus! {

/// Why an action could not run.
#[derive(Debug, Clone, Copy, PartialEq, Eq, Structural)]
pub enum StateMachineActionError {
    ExecuteError,
    ParsingError,
}

impl StateMachineActionError {
    /// The error's message.
    pub fn message(&self) -> (m: String)
        ensures
            m@ == match self {
                StateMachineActionError::ExecuteError => "action execution failed"@,
                StateMachineActionError::ParsingError => "action parsing failed"@,
            },
    {
        match self {
            StateMachineActionError::ExecuteError => "action execution failed".to_owned(),
            StateMachineActionError::ParsingError => "action parsing failed".to_owned(),
        }
    }
}

/// Something a state or an interaction does. Numbers are IEEE-754 bit
/// patterns of `f32` values; a string number is a `$`-reference to a numeric
/// input or an `@`-reference to a built-in.
#[derive(Debug, Clone)]
pub enum Action {
    OpenUrl { url: String, target: String },
    Increment { input_name: DotString, value: Option<StringNumber> },
    Decrement { input_name: DotString, value: Option<StringNumber> },
    Toggle { input_name: DotString },
    SetBoolean { input_name: DotString, value: StringBool },
    SetString { input_name: DotString, value: String },
    SetNumeric { input_name: DotString, value: StringNumber },
    SetRandom {
        input_name: DotString,
        min: Option<StringNumber>,
        max: Option<StringNumber>,
        integer: Option<bool>,
    },
    Multiply { input_name: DotString, value: StringNumber },
    Floor { input_name: DotString },
    Clamp { input_name: DotString, min: Option<StringNumber>, max: Option<StringNumber> },
    Fire { input_name: DotString },
    Reset { input_name: DotString },
    SetTheme { value: String },
    SetFrame { value: StringNumber },
    SetProgress { value: StringNumber },
    FireCustomEvent { value: String },
}

/// The input an action works on, if any.
pub open spec fn action_input(a: Action) -> Option<Seq<char>> {
    match a {
        Action::Increment { input_name, .. } => Some(input_name@),
        Action::Decrement { input_name, .. } => Some(input_name@),
        Action::Toggle { input_name } => Some(input_name@),
        Action::SetBoolean { input_name, .. } => Some(input_name@),
        Action::SetString { input_name, .. } => Some(input_name@),
        Action::SetNumeric { input_name, .. } => Some(input_name@),
        Action::SetRandom { input_name, .. } => Some(input_name@),
        Action::Multiply { input_name, .. } => Some(input_name@),
        Action::Floor { input_name } => Some(input_name@),
        Action::Clamp { input_name, .. } => Some(input_name@),
        Action::Fire { input_name } => Some(input_name@),
        Action::Reset { input_name } => Some(input_name@),
        _ => None,
    }
}

/// Whether two actions are the same but for where their names are stored.
pub open spec fn same_action(a: Action, b: Action) -> bool {
    match (a, b) {
        (Action::OpenUrl { url: url1, target: target1 }, Action::OpenUrl { url: url2, target: target2 }) => url1@ == url2@ && target1@ == target2@,
        (Action::Increment { input_name: input_name1, value: value1 }, Action::Increment { input_name: input_name2, value: value2 }) => input_name1@ == input_name2@ && value1 == value2,
        (Action::Decrement { input_name: input_name1, value: value1 }, Action::Decrement { input_name: input_name2, value: value2 }) => input_name1@ == input_name2@ && value1 == value2,
        (Action::Toggle { input_name: input_name1 }, Action::Toggle { input_name: input_name2 }) => input_name1@ == input_name2@,
        (Action::SetBoolean { input_name: input_name1, value: value1 }, Action::SetBoolean { input_name: input_name2, value: value2 }) => input_name1@ == input_name2@ && value1 == value2,
        (Action::SetString { input_name: input_name1, value: value1 }, Action::SetString { input_name: input_name2, value: value2 }) => input_name1@ == input_name2@ && value1@ == value2@,
        (Action::SetNumeric { input_name: input_name1, value: value1 }, Action::SetNumeric { input_name: input_name2, value: value2 }) => input_name1@ == input_name2@ && value1 == value2,
        (Action::SetRandom { input_name: input_name1, min: min1, max: max1, integer: integer1 }, Action::SetRandom { input_name: input_name2, min: min2, max: max2, integer: integer2 }) => input_name1@ == input_name2@ && min1 == min2 && max1 == max2 && integer1 == integer2,
        (Action::Multiply { input_name: input_name1, value: value1 }, Action::Multiply { input_name: input_name2, value: value2 }) => input_name1@ == input_name2@ && value1 == value2,
        (Action::Floor { input_name: input_name1 }, Action::Floor { input_name: input_name2 }) => input_name1@ == input_name2@,
        (Action::Clamp { input_name: input_name1, min: min1, max: max1 }, Action::Clamp { input_name: input_name2, min: min2, max: max2 }) => input_name1@ == input_name2@ && min1 == min2 && max1 == max2,
        (Action::Fire { input_name: input_name1 }, Action::Fire { input_name: input_name2 }) => input_name1@ == input_name2@,
        (Action::Reset { input_name: input_name1 }, Action::Reset { input_name: input_name2 }) => input_name1@ == input_name2@,
        (Action::SetTheme { value: value1 }, Action::SetTheme { value: value2 }) => value1@ == value2@,
        (Action::SetFrame { value: value1 }, Action::SetFrame { value: value2 }) => value1 == value2,
        (Action::SetProgress { value: value1 }, Action::SetProgress { value: value2 }) => value1 == value2,
        (Action::FireCustomEvent { value: value1 }, Action::FireCustomEvent { value: value2 }) => value1@ == value2@,
        _ => false,
    }
}

impl Action {
    /// Give the action's input name the interner's storage for that text.
    pub fn intern_identifiers(&mut self, interner: &mut DotStringInterner)
        ensures
            same_action(*old(self), *final(self)),
            final(interner)@ == match action_input(*old(self)) {
                Some(name) => old(interner)@.insert(name),
                None => old(interner)@,
            },
    {
        match self {
            Action::Increment { input_name, .. } => {
                *input_name = interner.intern(input_name.as_str());
            },
            Action::Decrement { input_name, .. } => {
                *input_name = interner.intern(input_name.as_str());
            },
            Action::Toggle { input_name } => {
                *input_name = interner.intern(input_name.as_str());
            },
            Action::SetBoolean { input_name, .. } => {
                *input_name = interner.intern(input_name.as_str());
            },
            Action::SetString { input_name, .. } => {
                *input_name = interner.intern(input_name.as_str());
            },
            Action::SetNumeric { input_name, .. } => {
                *input_name = interner.intern(input_name.as_str());
            },
            Action::SetRandom { input_name, .. } => {
                *input_name = interner.intern(input_name.as_str());
            },
            Action::Multiply { input_name, .. } => {
                *input_name = interner.intern(input_name.as_str());
            },
            Action::Floor { input_name } => {
                *input_name = interner.intern(input_name.as_str());
            },
            Action::Clamp { input_name, .. } => {
                *input_name = interner.intern(input_name.as_str());
            },
            Action::Fire { input_name } => {
                *input_name = interner.intern(input_name.as_str());
            },
            Action::Reset { input_name } => {
                *input_name = interner.intern(input_name.as_str());
            },
            _ => {},
        }
    }
}

/// A clamp bound: none, a number, or a reference that must resolve
/// (`Err` when it does not).
pub open spec fn clamp_bound(
    inputs: InputsView,
    elapsed_time: u32,
    bound: Option<StringNumber>,
) -> Result<Option<u32>, ()> {
    match bound {
        None => Ok(None),
        Some(StringNumber::F32(v)) => Ok(Some(v)),
        Some(StringNumber::String(s)) => match numeric_reference(inputs, elapsed_time, s@) {
            Some(v) => Ok(Some(v)),
            None => Err(()),
        },
    }
}

/// A random bound: `default` when none is given, a number, or a reference
/// that must resolve (`Err` when it does not).
pub open spec fn random_bound(
    inputs: InputsView,
    elapsed_time: u32,
    bound: Option<StringNumber>,
    default: u32,
) -> Result<u32, ()> {
    match bound {
        None => Ok(default),
        Some(StringNumber::F32(v)) => Ok(v),
        Some(StringNumber::String(s)) => match numeric_reference(inputs, elapsed_time, s@) {
            Some(v) => Ok(v),
            None => Err(()),
        },
    }
}

/// The bound of a `Clamp` action (see `clamp_bound`).
pub fn resolve_clamp_bound(inputs: &InputManager, elapsed_time: u32, bound: &Option<StringNumber>) -> (r: Result<
    Option<u32>,
    (),
>)
    ensures
        r == clamp_bound(inputs@, elapsed_time, *bound),
{
    match bound {
        None => Ok(None),
        Some(StringNumber::F32(v)) => Ok(Some(*v)),
        Some(StringNumber::String(s)) => match resolve_numeric_ref(inputs, elapsed_time, s.as_str()) {
            Some(v) => Ok(Some(v)),
            None => Err(()),
        },
    }
}

/// A bound of a `SetRandom` action (see `random_bound`).
pub fn resolve_random_bound(
    inputs: &InputManager,
    elapsed_time: u32,
    bound: &Option<StringNumber>,
    default: u32,
) -> (r: Result<u32, ()>)
    ensures
        r == random_bound(inputs@, elapsed_time, *bound, default),
{
    match bound {
        None => Ok(default),
        Some(StringNumber::F32(v)) => Ok(*v),
        Some(StringNumber::String(s)) => match resolve_numeric_ref(inputs, elapsed_time, s.as_str()) {
            Some(v) => Ok(v),
            None => Err(()),
        },
    }
}

} // verus!
