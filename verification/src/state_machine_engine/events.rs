//! Events sent to the engine. Pointer coordinates are IEEE-754 bit patterns
//! of `f32` values.
use vstd::prelude::*;

verus! {

/// Where a pointer event happened.
pub trait PointerEvent {
    fn x(&self) -> u32;

    fn y(&self) -> u32;
}

/// Gives the name of an event's type.
pub trait EventName {
    fn event_type_name(&self) -> String;
}

/// Something that happened to the player or under the pointer.
#[derive(Debug, Clone, Copy, PartialEq, Eq, Structural)]
pub enum Event {
    PointerDown { x: u32, y: u32 },
    PointerUp { x: u32, y: u32 },
    PointerMove { x: u32, y: u32 },
    PointerEnter { x: u32, y: u32 },
    PointerExit { x: u32, y: u32 },
    Click { x: u32, y: u32 },
    OnComplete,
    OnLoopComplete,
}

/// The pointer position an event reports: its coordinates for a pointer
/// down, up, move, enter or a click; zero (`0.0`) for anything else, a
/// pointer exit included.
pub open spec fn reported_position(e: Event) -> (u32, u32) {
    match e {
        Event::PointerDown { x, y } => (x, y),
        Event::PointerUp { x, y } => (x, y),
        Event::PointerMove { x, y } => (x, y),
        Event::Click { x, y } => (x, y),
        Event::PointerEnter { x, y } => (x, y),
        _ => (0, 0),
    }
}

impl PointerEvent for Event {
    fn x(&self) -> (r: u32)
        ensures
            r == reported_position(*self).0,
    {
        match self {
            Event::PointerDown { x, .. } => *x,
            Event::PointerUp { x, .. } => *x,
            Event::PointerMove { x, .. } => *x,
            Event::Click { x, .. } => *x,
            Event::PointerEnter { x, .. } => *x,
            _ => 0,
        }
    }

    fn y(&self) -> (r: u32)
        ensures
            r == reported_position(*self).1,
    {
        match self {
            Event::PointerDown { y, .. } => *y,
            Event::PointerUp { y, .. } => *y,
            Event::PointerMove { y, .. } => *y,
            Event::Click { y, .. } => *y,
            Event::PointerEnter { y, .. } => *y,
            _ => 0,
        }
    }
}

impl EventName for Event {
    fn event_type_name(&self) -> (n: String)
        ensures
            n@ == match *self {
                Event::PointerDown { .. } => "PointerDown"@,
                Event::PointerUp { .. } => "PointerUp"@,
                Event::PointerMove { .. } => "PointerMove"@,
                Event::PointerEnter { .. } => "PointerEnter"@,
                Event::PointerExit { .. } => "PointerExit"@,
                Event::Click { .. } => "Click"@,
                Event::OnComplete => "OnComplete"@,
                Event::OnLoopComplete => "OnLoopComplete"@,
            },
    {
        match self {
            Event::PointerDown { .. } => "PointerDown".to_owned(),
            Event::PointerUp { .. } => "PointerUp".to_owned(),
            Event::PointerMove { .. } => "PointerMove".to_owned(),
            Event::PointerEnter { .. } => "PointerEnter".to_owned(),
            Event::PointerExit { .. } => "PointerExit".to_owned(),
            Event::Click { .. } => "Click".to_owned(),
            Event::OnComplete => "OnComplete".to_owned(),
            Event::OnLoopComplete => "OnLoopComplete".to_owned(),
        }
    }
}

} // verus!
