//! The state machine: definitions, guards, events and actions.
use vstd::prelude::*;

pub mod actions;
pub mod definition;
pub mod errors;
pub mod events;
pub mod inputs;
pub mod interactions;
pub mod listeners;
pub mod motion_ops;
pub mod motions;
pub mod parser;
pub mod security;
pub mod states;
pub mod transitions;

verus! {

/// Names of built-in inputs start with this character; user inputs may not.
pub const GLOBAL_INPUT_PREFIX: char = '@';

/// The built-in input that holds the time spent in the current state.
pub open spec fn elapsed_time_key() -> Seq<char> {
    "@elapsedTime"@
}

/// Whether `key` names the built-in elapsed-time input.
pub fn is_elapsed_time_key(key: &str) -> (b: bool)
    ensures
        b == (key@ == elapsed_time_key()),
{
    crate::text::chars_eq(&crate::text::chars_of(key), &crate::text::chars_of("@elapsedTime"))
}

/// Whether `s` starts with `c`.
pub open spec fn starts_with_char(s: Seq<char>, c: char) -> bool {
    s.len() > 0 && s[0] == c
}

/// Whether the text `s` starts with `c`.
pub fn str_starts_with_char(s: &str, c: char) -> (b: bool)
    ensures
        b == starts_with_char(s@, c),
{
    let v = crate::text::chars_of(s);
    v.len() > 0 && v[0] == c
}

/// The name a `$`-reference points at: the text without its leading `$`s.
pub open spec fn referenced_name(reference: Seq<char>) -> Seq<char> {
    crate::text::trim_start_char(reference, '$')
}

/// `reference` without its leading `$`s.
pub fn strip_reference(reference: &str) -> (s: String)
    ensures
        s@ == referenced_name(reference@),
{
    crate::text::string_of(&crate::text::trim_start_char_in(&crate::text::chars_of(reference), '$'))
}

/// Receives the state machine's notifications.
pub trait StateMachineObserver: Send + Sync {
    fn on_transition(&self, previous_state: String, new_state: String);

    fn on_state_entered(&self, entering_state: String);

    fn on_state_exit(&self, leaving_state: String);
}

/// Why a state machine definition is refused.
#[derive(Debug, Clone, PartialEq)]
pub enum Error {
    /// The definition could not be read.
    ParsingError(String),
    /// More than one state is a global state.
    MultipleGlobalStates,
    /// Two states share a name.
    DuplicateStateName,
    /// A state has more than one transition without guards.
    MultipleGuardlessTransitions,
    /// A guard refers to an input or event that is not declared.
    InvalidCompareToInput,
}

/// Whether the state machine runs.
#[derive(Debug, Clone, Copy, PartialEq, Eq, Structural)]
pub enum StateMachineStatus {
    Running,
    Paused,
    Stopped,
}

} // verus!
