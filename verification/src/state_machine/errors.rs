//! Errors of the state machine.
use vstd::prelude::*;

verus! {

/// The state machine definition could not be loaded.
#[derive(Debug, Clone, PartialEq)]
pub enum StateMachineError {
    ParsingError { reason: String },
}

impl StateMachineError {
    /// The error's message (the reason is not part of it).
    pub fn message(&self) -> (m: String)
        ensures
            m@ == "Failed to parse JSON state machine definition"@,
    {
        "Failed to parse JSON state machine definition".to_owned()
    }
}

} // verus!
