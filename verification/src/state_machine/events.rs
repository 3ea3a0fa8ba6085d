//! State machine events: `Event` comes in from the host, and
//! `StateMachineEvent` / `StateMachineInternalEvent` go back out. Pointer
//! coordinates and numeric input values are IEEE-754 bit patterns of `f32`
//! values.
use vstd::prelude::*;

use crate::string::DotString;

verus! {

/// The discriminant shared by events and interactions.
#[derive(Debug, Clone, Copy, PartialEq, Eq, Structural)]
pub enum EventKind {
    PointerDown,
    PointerUp,
    PointerMove,
    PointerEnter,
    PointerExit,
    Click,
    OnComplete,
    OnLoopComplete,
}

/// The schema name of an event kind.
pub open spec fn event_kind_name(kind: EventKind) -> Seq<char> {
    match kind {
        EventKind::PointerDown => "PointerDown"@,
        EventKind::PointerUp => "PointerUp"@,
        EventKind::PointerMove => "PointerMove"@,
        EventKind::PointerEnter => "PointerEnter"@,
        EventKind::PointerExit => "PointerExit"@,
        EventKind::Click => "Click"@,
        EventKind::OnComplete => "OnComplete"@,
        EventKind::OnLoopComplete => "OnLoopComplete"@,
    }
}

impl EventKind {
    /// The name used by the interaction schema.
    pub fn as_str(self) -> (s: &'static str)
        ensures
            s@ == event_kind_name(self),
    {
        match self {
            EventKind::PointerDown => "PointerDown",
            EventKind::PointerUp => "PointerUp",
            EventKind::PointerMove => "PointerMove",
            EventKind::PointerEnter => "PointerEnter",
            EventKind::PointerExit => "PointerExit",
            EventKind::Click => "Click",
            EventKind::OnComplete => "OnComplete",
            EventKind::OnLoopComplete => "OnLoopComplete",
        }
    }
}

/// Something the host reports: a pointer event with its position, or the
/// player finishing the animation or a loop of it.
#[derive(Debug, Clone, Copy, PartialEq, Eq, Structural)]
pub enum Event {
    PointerDown { x: u32, y: u32 },
    PointerUp { x: u32, y: u32 },
    PointerMove { x: u32, y: u32 },
    PointerEnter { x: u32, y: u32 },
    PointerExit { x: u32, y: u32 },
    Click { x: u32, y: u32 },
    OnComplete,
    OnLoopComplete,
}

/// The kind of an event.
pub open spec fn kind_of(e: Event) -> EventKind {
    match e {
        Event::PointerDown { .. } => EventKind::PointerDown,
        Event::PointerUp { .. } => EventKind::PointerUp,
        Event::PointerMove { .. } => EventKind::PointerMove,
        Event::PointerEnter { .. } => EventKind::PointerEnter,
        Event::PointerExit { .. } => EventKind::PointerExit,
        Event::Click { .. } => EventKind::Click,
        Event::OnComplete => EventKind::OnComplete,
        Event::OnLoopComplete => EventKind::OnLoopComplete,
    }
}

impl Event {
    /// The event's kind.
    pub fn kind(&self) -> (k: EventKind)
        ensures
            k == kind_of(*self),
    {
        match self {
            Event::PointerDown { .. } => EventKind::PointerDown,
            Event::PointerUp { .. } => EventKind::PointerUp,
            Event::PointerMove { .. } => EventKind::PointerMove,
            Event::PointerEnter { .. } => EventKind::PointerEnter,
            Event::PointerExit { .. } => EventKind::PointerExit,
            Event::Click { .. } => EventKind::Click,
            Event::OnComplete => EventKind::OnComplete,
            Event::OnLoopComplete => EventKind::OnLoopComplete,
        }
    }

    /// The pointer position, or the origin for the player's events.
    pub fn position(&self) -> (p: (u32, u32))
        ensures
            p == match *self {
                Event::PointerDown { x, y } => (x, y),
                Event::PointerUp { x, y } => (x, y),
                Event::PointerMove { x, y } => (x, y),
                Event::PointerEnter { x, y } => (x, y),
                Event::PointerExit { x, y } => (x, y),
                Event::Click { x, y } => (x, y),
                Event::OnComplete | Event::OnLoopComplete => (0u32, 0u32),
            },
    {
        match self {
            Event::PointerDown { x, y } => (*x, *y),
            Event::PointerUp { x, y } => (*x, *y),
            Event::PointerMove { x, y } => (*x, *y),
            Event::PointerEnter { x, y } => (*x, *y),
            Event::PointerExit { x, y } => (*x, *y),
            Event::Click { x, y } => (*x, *y),
            Event::OnComplete | Event::OnLoopComplete => (0, 0),
        }
    }
}

/// What the state machine reports to the host.
#[derive(Debug, Clone)]
pub enum StateMachineEvent {
    Start,
    Stop,
    Transition { previous_state: DotString, new_state: DotString },
    StateEntered { state: DotString },
    StateExit { state: DotString },
    CustomEvent { message: DotString },
    Error { message: DotString },
    StringInputChange { name: DotString, old_value: DotString, new_value: DotString },
    NumericInputChange { name: DotString, old_value: u32, new_value: u32 },
    BooleanInputChange { name: DotString, old_value: bool, new_value: bool },
    InputFired { name: DotString },
}

/// What the state machine reports to the framework only: requests to open a
/// URL.
#[derive(Debug, Clone)]
pub enum StateMachineInternalEvent {
    Message { message: DotString },
}

} // verus!
