//! Actions run by states and interactions.
use vstd::prelude::*;

pub mod effects;
pub mod open_url;
pub mod open_url_policy;
pub mod utils;
pub mod whitelist;

use crate::state_machine_engine::inputs::InputManager;
use crate::state_machine_engine::state_machine::{StringBool, StringNumber};
use crate::state_machine_engine::transitions::guard::{
    boolean_guard_holds, event_guard_holds, numeric_guard_holds, string_guard_holds, Guard,
    GuardTrait,
};
use crate::state_machine::inputs::InputsView;

verus! {

/// Why an action could not run.
#[derive(Debug, Clone, Copy, PartialEq, Eq, Structural)]
pub enum StateMachineActionError {
    ExecuteError,
    ParsingError,
}

/// Something a state or an interaction does, under optional guards. Numbers
/// are IEEE-754 bit patterns of `f32` values.
#[derive(Debug, Clone)]
pub enum Action {
    OpenUrl { url: String, target: String, guards: Option<Vec<Guard>> },
    Increment { input_name: String, value: Option<StringNumber>, guards: Option<Vec<Guard>> },
    Decrement { input_name: String, value: Option<StringNumber>, guards: Option<Vec<Guard>> },
    Toggle { input_name: String, guards: Option<Vec<Guard>> },
    SetBoolean { input_name: String, value: StringBool, guards: Option<Vec<Guard>> },
    SetString { input_name: String, value: String, guards: Option<Vec<Guard>> },
    SetNumeric { input_name: String, value: StringNumber, guards: Option<Vec<Guard>> },
    Fire { input_name: String, guards: Option<Vec<Guard>> },
    Reset { input_name: String, guards: Option<Vec<Guard>> },
    SetTheme { value: String, guards: Option<Vec<Guard>> },
    SetFrame { value: StringNumber, guards: Option<Vec<Guard>> },
    SetProgress { value: StringNumber, guards: Option<Vec<Guard>> },
    FireCustomEvent { value: String, guards: Option<Vec<Guard>> },
}

/// The guards of an action.
pub open spec fn action_guards(a: Action) -> Option<Vec<Guard>> {
    match a {
        Action::OpenUrl { guards, .. } => guards,
        Action::Increment { guards, .. } => guards,
        Action::Decrement { guards, .. } => guards,
        Action::Toggle { guards, .. } => guards,
        Action::SetBoolean { guards, .. } => guards,
        Action::SetString { guards, .. } => guards,
        Action::SetNumeric { guards, .. } => guards,
        Action::Fire { guards, .. } => guards,
        Action::Reset { guards, .. } => guards,
        Action::SetTheme { guards, .. } => guards,
        Action::SetFrame { guards, .. } => guards,
        Action::SetProgress { guards, .. } => guards,
        Action::FireCustomEvent { guards, .. } => guards,
    }
}

/// What an action answers without an engine at hand. Running an action
/// changes the engine and the player, and is done where they live.
pub trait ActionTrait {
    fn guards(&self) -> &Option<Vec<Guard>>;
}

impl ActionTrait for Action {
    /// The action's guards, if any.
    fn guards(&self) -> (g: &Option<Vec<Guard>>)
        ensures
            *g == action_guards(*self),
    {
        match self {
            Action::OpenUrl { guards, .. } => guards,
            Action::Increment { guards, .. } => guards,
            Action::Decrement { guards, .. } => guards,
            Action::Toggle { guards, .. } => guards,
            Action::SetBoolean { guards, .. } => guards,
            Action::SetString { guards, .. } => guards,
            Action::SetNumeric { guards, .. } => guards,
            Action::Fire { guards, .. } => guards,
            Action::Reset { guards, .. } => guards,
            Action::SetTheme { guards, .. } => guards,
            Action::SetFrame { guards, .. } => guards,
            Action::SetProgress { guards, .. } => guards,
            Action::FireCustomEvent { guards, .. } => guards,
        }
    }
}

/// Whether one guard lets an action run: a numeric, string or boolean guard
/// must hold for the inputs; an event guard needs a pending event, and must
/// name it.
pub open spec fn guard_passes(guard: Guard, inputs: InputsView, event: Option<Seq<char>>) -> bool {
    match guard {
        Guard::Numeric { .. } => numeric_guard_holds(guard, inputs),
        Guard::String { .. } => string_guard_holds(guard, inputs),
        Guard::Boolean { .. } => boolean_guard_holds(guard, inputs),
        Guard::Event { .. } => match event {
            Some(e) => event_guard_holds(guard, e),
            None => false,
        },
    }
}

/// Whether an action with `guards` runs: it does without guards, and with
/// guards when every one of them passes.
pub open spec fn guards_pass(
    guards: Option<Vec<Guard>>,
    inputs: InputsView,
    event: Option<Seq<char>>,
) -> bool {
    match guards {
        None => true,
        Some(gs) => forall|i: int| 0 <= i < gs@.len() ==> guard_passes(#[trigger] gs@[i], inputs, event),
    }
}

/// An action without guards always runs, as does one with an empty list;
/// with guards, it runs exactly when none of them fails. An event guard
/// passes only while the event it names is pending.
pub proof fn law_guards_pass(guards: Vec<Guard>, inputs: InputsView, event: Option<Seq<char>>, name: String)
    ensures
        guards_pass(None, inputs, event),
        guards@.len() == 0 ==> guards_pass(Some(guards), inputs, event),
        guards_pass(Some(guards), inputs, event) <==> !exists|k: int|
            0 <= k < guards@.len() && !guard_passes(#[trigger] guards@[k], inputs, event),
        guard_passes(Guard::Event { input_name: name }, inputs, event) == (event == Some(name@)),
{
    if guards_pass(Some(guards), inputs, event) {
        assert forall|k: int| 0 <= k < guards@.len() implies guard_passes(#[trigger] guards@[k], inputs, event) by {
            let g = guards@[k];
            assert(Some(guards) matches Some(gs) && gs@[k] == g);
        }
    } else {
        let k = choose|k: int| 0 <= k < guards@.len() && !guard_passes(#[trigger] guards@[k], inputs, event);
        assert(0 <= k < guards@.len() && !guard_passes(guards@[k], inputs, event));
    }
}

/// Whether an action with `guards` runs, given the inputs and the event
/// pending on this run, if any.
pub fn all_guards_satisfied(guards: &Option<Vec<Guard>>, inputs: &InputManager, event: Option<&str>) -> (r: bool)
    ensures
        r == guards_pass(
            *guards,
            inputs@,
            match event {
                Some(e) => Some(e@),
                None => None,
            },
        ),
{
    let ghost ev = match event {
        Some(e) => Some(e@),
        None => None,
    };
    if let Some(gs) = guards {
        for i in 0..gs.len()
            invariant
                *guards == Some(*gs),
                forall|j: int| 0 <= j < i ==> guard_passes(#[trigger] gs@[j], inputs@, ev),
                ev == match event {
                    Some(e) => Some(e@),
                    None => None::<Seq<char>>,
                },
        {
            let guard = &gs[i];
            let passes = match guard {
                Guard::Numeric { .. } => guard.numeric_input_is_satisfied(inputs),
                Guard::String { .. } => guard.string_input_is_satisfied(inputs),
                Guard::Boolean { .. } => guard.boolean_input_is_satisfied(inputs),
                Guard::Event { .. } => match event {
                    Some(e) => guard.event_input_is_satisfied(e),
                    None => false,
                },
            };
            if !passes {
                assert(!guard_passes(gs@[i as int], inputs@, ev));
                assert((*guards)->0@ == gs@);
                assert(!guards_pass(*guards, inputs@, ev));
                return false;
            }
        }
    }
    true
}

} // verus!
