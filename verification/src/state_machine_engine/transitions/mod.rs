//! Engine transitions.
pub mod guard;

use vstd::prelude::*;

use crate::string::DotString;
use guard::Guard;

verus! {

/// A way out of a state, into `to_state`, once all its guards hold. A tweened
/// transition blends over `duration` seconds along `easing`; both are
/// IEEE-754 bit patterns of `f32` values.
#[derive(Debug, Clone)]
pub enum Transition {
    Transition { to_state: DotString, guards: Option<Vec<Guard>> },
    Tweened { to_state: DotString, guards: Option<Vec<Guard>>, duration: u32, easing: [u32; 4] },
}

/// The guards of a transition, if it has any.
pub open spec fn transition_guards(t: Transition) -> Option<Vec<Guard>> {
    match t {
        Transition::Transition { guards, .. } => guards,
        Transition::Tweened { guards, .. } => guards,
    }
}

/// The guards of a transition as a sequence, empty when there are none.
pub open spec fn guard_seq(t: Transition) -> Seq<Guard> {
    match transition_guards(t) {
        Some(g) => g@,
        None => Seq::empty(),
    }
}

/// The questions a transition answers. The duration of a tween, in
/// milliseconds, is `f32` arithmetic on the authored seconds and is computed
/// where the value is used.
pub trait TransitionTrait {
    fn target_state(&self) -> &DotString;

    fn guards(&self) -> &Option<Vec<Guard>>;

    fn easing(&self) -> [u32; 4];

    fn transitions_contain_event(&self) -> bool;
}

impl TransitionTrait for Transition {
    /// The state the transition leads to.
    fn target_state(&self) -> (s: &DotString)
        ensures
            s@ == match *self {
                Transition::Transition { to_state, .. } => to_state@,
                Transition::Tweened { to_state, .. } => to_state@,
            },
    {
        match self {
            Transition::Transition { to_state, .. } => to_state,
            Transition::Tweened { to_state, .. } => to_state,
        }
    }

    /// The guards, if any.
    fn guards(&self) -> (g: &Option<Vec<Guard>>)
        ensures
            *g == transition_guards(*self),
    {
        match self {
            Transition::Transition { guards, .. } => guards,
            Transition::Tweened { guards, .. } => guards,
        }
    }

    /// The easing curve (bit patterns); all zeros for a plain transition.
    fn easing(&self) -> (e: [u32; 4])
        ensures
            e@ == match *self {
                Transition::Transition { .. } => seq![0u32, 0u32, 0u32, 0u32],
                Transition::Tweened { easing, .. } => easing@,
            },
    {
        match self {
            Transition::Transition { .. } => [0, 0, 0, 0],
            Transition::Tweened { easing, .. } => *easing,
        }
    }

    /// Whether one of the guards waits for an event.
    fn transitions_contain_event(&self) -> (b: bool)
        ensures
            b == (transition_guards(*self) matches Some(gs) && exists|i: int|
                0 <= i < gs@.len() && gs@[i] is Event),
    {
        if let Some(guards) = self.guards() {
            for i in 0..guards.len()
                invariant
                    transition_guards(*self) == Some(*guards),
                    forall|j: int| 0 <= j < i ==> !(guards@[j] is Event),
            {
                if let Guard::Event { .. } = &guards[i] {
                    return true;
                }
            }
        }
        false
    }
}

} // verus!
