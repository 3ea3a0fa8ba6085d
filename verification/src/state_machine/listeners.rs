//! Listener actions.
use vstd::prelude::*;

verus! {

/// What a listener does to its input.
#[derive(Debug, Clone, Copy, PartialEq, Eq, Structural)]
pub enum ListenerAction {
    Increment,
    Decrement,
    /// Sets the input (named `Set` in the definition format).
    Assign,
    /// Does nothing (named `None` in the definition format).
    NoAction,
}

} // verus!
