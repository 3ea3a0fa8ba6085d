//! The JSON shapes of the state machine definition format.
use vstd::prelude::*;

verus! {

/// The kinds of state action.
#[derive(Debug, Clone, Copy, PartialEq, Eq, Structural)]
pub enum StateActionType {
    URLAction,
    ThemeAction,
    SoundAction,
    LogAction,
}

/// The input types a transition guard reads.
#[derive(Debug, Clone, Copy, PartialEq, Eq, Structural)]
pub enum TransitionGuardType {
    Numeric,
    String,
    Boolean,
}

/// The types of context values.
#[derive(Debug, Clone, Copy, PartialEq, Eq, Structural)]
pub enum ContextJsonType {
    Numeric,
    String,
    Boolean,
}

/// The kinds of transition.
#[derive(Debug, Clone, Copy, PartialEq, Eq, Structural)]
pub enum TransitionJsonType {
    Transition,
}

/// The pointer events a listener can listen for.
#[derive(Debug, Clone, Copy, PartialEq, Eq, Structural)]
pub enum ListenerJsonType {
    PointerUp,
    PointerDown,
    PointerEnter,
    PointerExit,
    PointerMove,
}

/// How a guard compares its input with its value.
#[derive(Debug, Clone, Copy, PartialEq, Eq, Structural)]
pub enum TransitionGuardConditionType {
    GreaterThan,
    GreaterThanOrEqual,
    LessThan,
    LessThanOrEqual,
    Equal,
    NotEqual,
}

/// The descriptor of a state machine: its id and initial state index.
#[derive(Debug, Clone, PartialEq)]
pub struct DescriptorJson {
    pub id: String,
    pub initial: u32,
}

/// An action run when a state is entered or left.
#[derive(Debug, Clone, PartialEq)]
pub enum StateActionJson {
    URLAction { url: String, target: Option<String> },
    ThemeAction { theme_id: String, target: Option<String> },
    SoundAction { sound_id: String, target: Option<String> },
    LogAction { message: String },
}

/// A string event's value.
#[derive(Debug, Clone, PartialEq)]
pub struct StringEventJson {
    pub value: String,
}

/// A boolean event's value.
#[derive(Debug, Clone, Copy, PartialEq, Eq, Structural)]
pub struct BooleanEventJson {
    pub value: bool,
}

/// The animation-completed event.
#[derive(Debug, Clone, Copy, PartialEq, Eq, Structural)]
pub struct OnCompleteEventJson {}

/// A pointer-down event, optionally on a target layer.
#[derive(Debug, Clone, PartialEq)]
pub struct OnPointerDownEventJson {
    pub target: Option<String>,
}

/// A pointer-up event, optionally on a target layer.
#[derive(Debug, Clone, PartialEq)]
pub struct OnPointerUpEventJson {
    pub target: Option<String>,
}

/// A pointer-enter event, optionally on a target layer.
#[derive(Debug, Clone, PartialEq)]
pub struct OnPointerEnterEventJson {
    pub target: Option<String>,
}

/// A pointer-exit event, optionally on a target layer.
#[derive(Debug, Clone, PartialEq)]
pub struct OnPointerExitEventJson {
    pub target: Option<String>,
}

/// A pointer-move event, optionally on a target layer.
#[derive(Debug, Clone, PartialEq)]
pub struct OnPointerMoveEventJson {
    pub target: Option<String>,
}

} // verus!
