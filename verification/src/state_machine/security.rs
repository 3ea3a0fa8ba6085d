//! Load-time validation of a state machine definition:
//! - state names are unique, and there is at most one global state;
//! - no state has more than one transition without guards;
//! - every `$`-reference in a guard's `compareTo` names a declared input of
//!   the matching type, and every event guard names a declared event.
use vstd::prelude::*;

use crate::state_machine::definition::{StringBool, StringNumberBool};
use crate::state_machine::inputs::{InputManager, InputsView};
use crate::state_machine::states::{state_name, state_transitions, State};
use crate::state_machine::transitions::guard::Guard;
use crate::state_machine::transitions::{guard_list, Transition};
use crate::state_machine::{
    referenced_name, starts_with_char, str_starts_with_char, strip_reference, Error,
    GLOBAL_INPUT_PREFIX,
};

verus! {

/// Whether what `guard` refers to is declared. A `compareTo` that is a
/// number or a boolean refers to nothing; an `@`-reference of a numeric guard
/// names a built-in; a string guard's `compareTo` without a leading `$` is a
/// literal.
pub open spec fn guard_declared(guard: Guard, inputs: InputsView) -> bool {
    match guard {
        Guard::Boolean { compare_to, .. } => match compare_to {
            StringBool::String(reference) => inputs.boolean.contains_key(
                referenced_name(reference@),
            ),
            StringBool::Bool(_) => true,
        },
        Guard::Numeric { compare_to, .. } => match compare_to {
            StringNumberBool::String(reference) => starts_with_char(reference@, '@')
                || inputs.numeric.contains_key(referenced_name(reference@)),
            _ => true,
        },
        Guard::String { compare_to, .. } => match compare_to {
            StringNumberBool::String(reference) => !starts_with_char(reference@, '$')
                || inputs.string.contains_key(referenced_name(reference@)),
            _ => true,
        },
        Guard::Event { input_name } => inputs.event.contains(input_name@),
    }
}

/// Whether every guard of `t` refers to declared inputs.
pub open spec fn transition_declared(t: Transition, inputs: InputsView) -> bool {
    forall|i: int| 0 <= i < guard_list(t).len() ==> guard_declared(#[trigger] guard_list(t)[i], inputs)
}

/// How many of `ts` have no guards: none at all, or an empty list.
pub open spec fn guardless_count(ts: Seq<Transition>) -> nat
    decreases ts.len(),
{
    if ts.len() == 0 {
        0
    } else {
        guardless_count(ts.drop_last()) + if ts.last().guards is None || ts.last().guards->0@.len() == 0 {
            1nat
        } else {
            0nat
        }
    }
}

/// What is wrong with the state at `i`, given that the states before it are
/// fine: a second global state, a name used before, a guard that refers to
/// an undeclared input, or more than one transition without guards — looked
/// at in that order.
pub open spec fn state_problem(states: Seq<State>, i: int, inputs: InputsView) -> Option<Error> {
    let s = states[i];
    let ts = state_transitions(s);
    if s is GlobalState && exists|j: int| 0 <= j < i && #[trigger] states[j] is GlobalState {
        Some(Error::MultipleGlobalStates)
    } else if exists|j: int| 0 <= j < i && state_name(#[trigger] states[j]) == state_name(s) {
        Some(Error::DuplicateStateName)
    } else if exists|k: int| 0 <= k < ts.len() && !transition_declared(#[trigger] ts[k], inputs) {
        Some(Error::InvalidCompareToInput)
    } else if guardless_count(ts) > 1 {
        Some(Error::MultipleGuardlessTransitions)
    } else {
        None
    }
}

/// Whether `guard` refers to declared inputs.
fn check_guard(inputs: &InputManager, guard: &Guard) -> (b: bool)
    ensures
        b == guard_declared(*guard, inputs@),
{
    match guard {
        Guard::Boolean { compare_to, .. } => match compare_to {
            StringBool::String(reference) => {
                let name = strip_reference(reference.as_str());
                inputs.get_boolean(name.as_str()).is_some()
            },
            StringBool::Bool(_) => true,
        },
        Guard::Numeric { compare_to, .. } => match compare_to {
            StringNumberBool::String(reference) => {
                if str_starts_with_char(reference.as_str(), GLOBAL_INPUT_PREFIX) {
                    true
                } else {
                    let name = strip_reference(reference.as_str());
                    inputs.get_numeric(name.as_str()).is_some()
                }
            },
            _ => true,
        },
        Guard::String { compare_to, .. } => match compare_to {
            StringNumberBool::String(reference) => {
                if !str_starts_with_char(reference.as_str(), '$') {
                    true
                } else {
                    let name = strip_reference(reference.as_str());
                    inputs.get_string(name.as_str()).is_some()
                }
            },
            _ => true,
        },
        Guard::Event { input_name } => inputs.get_event(input_name.as_str()).is_some(),
    }
}

/// `Err(InvalidCompareToInput)` when a guard of `transition` refers to an
/// undeclared input.
fn check_guards(inputs: &InputManager, transition: &Transition) -> (r: Result<(), Error>)
    ensures
        r is Ok == transition_declared(*transition, inputs@),
        r matches Err(e) ==> e == Error::InvalidCompareToInput,
{
    let guards = transition.guards();
    for i in 0..guards.len()
        invariant
            guards@ == guard_list(*transition),
            forall|j: int| 0 <= j < i ==> guard_declared(#[trigger] guards@[j], inputs@),
    {
        if !check_guard(inputs, &guards[i]) {
            return Err(Error::InvalidCompareToInput);
        }
    }
    Ok(())
}

/// Check a definition's states against its inputs. The states are looked at
/// in order; the first one with a problem gives the error (see
/// `state_problem`).
pub fn state_machine_state_check_pipeline(states: &Vec<State>, inputs: &InputManager) -> (r: Result<
    (),
    Error,
>)
    ensures
        match r {
            Ok(()) => forall|i: int| 0 <= i < states@.len() ==> #[trigger] state_problem(states@, i, inputs@) is None,
            Err(e) => exists|i: int|
                0 <= i < states@.len() && state_problem(states@, i, inputs@) == Some(e) && forall|j: int|
                    0 <= j < i ==> #[trigger] state_problem(states@, j, inputs@) is None,
        },
{
    let mut has_global = false;
    for i in 0..states.len()
        invariant
            has_global == exists|j: int| 0 <= j < i && #[trigger] states@[j] is GlobalState,
            forall|j: int| 0 <= j < i ==> #[trigger] state_problem(states@, j, inputs@) is None,
    {
        let state = &states[i];
        let is_global = match state {
            State::GlobalState { .. } => true,
            State::PlaybackState { .. } => false,
        };
        if is_global && has_global {
            return Err(Error::MultipleGlobalStates);
        }
        let ghost first_ok = !(states@[i as int] is GlobalState && exists|k: int|
            0 <= k < i && #[trigger] states@[k] is GlobalState);
        assert(first_ok);
        let mut j: usize = 0;
        while j < i
            invariant
                0 <= j <= i < states@.len(),
                state == &states@[i as int],
                first_ok == !(states@[i as int] is GlobalState && exists|k: int|
                    0 <= k < i && #[trigger] states@[k] is GlobalState),
                first_ok,
                forall|k: int| 0 <= k < i ==> #[trigger] state_problem(states@, k, inputs@) is None,
                forall|k: int| 0 <= k < j ==> state_name(#[trigger] states@[k]) != state_name(*state),
            decreases i - j,
        {
            if *states[j].name() == *state.name() {
                proof {
                    assert(state_name(states@[j as int]) == state_name(states@[i as int]));
                    assert(state_problem(states@, i as int, inputs@) == Some(Error::DuplicateStateName));
                }
                return Err(Error::DuplicateStateName);
            }
            j = j + 1;
        }
        let transitions = state.transitions();
        let mut guardless: usize = 0;
        for k in 0..transitions.len()
            invariant
                i < states@.len(),
                transitions@ == state_transitions(states@[i as int]),
                first_ok == !(states@[i as int] is GlobalState && exists|k: int|
                    0 <= k < i && #[trigger] states@[k] is GlobalState),
                first_ok,
                forall|m: int| 0 <= m < i ==> #[trigger] state_problem(states@, m, inputs@) is None,
                forall|m: int| 0 <= m < i ==> state_name(#[trigger] states@[m]) != state_name(states@[i as int]),
                guardless == guardless_count(transitions@.take(k as int)),
                guardless <= k,
                forall|m: int| 0 <= m < k ==> transition_declared(#[trigger] transitions@[m], inputs@),
        {
            proof {
                assert(transitions@.take(k as int + 1).drop_last() == transitions@.take(k as int));
            }
            let no_guards = match &transitions[k].guards {
                None => true,
                Some(gs) => gs.len() == 0,
            };
            if no_guards {
                guardless = guardless + 1;
            }
            if check_guards(inputs, &transitions[k]).is_err() {
                proof {
                    assert(!transition_declared(transitions@[k as int], inputs@));
                    assert(state_problem(states@, i as int, inputs@) == Some(Error::InvalidCompareToInput));
                }
                return Err(Error::InvalidCompareToInput);
            }
        }
        proof {
            assert(transitions@.take(transitions@.len() as int) == transitions@);
        }
        if guardless > 1 {
            proof {
                assert(state_problem(states@, i as int, inputs@) == Some(Error::MultipleGuardlessTransitions));
            }
            return Err(Error::MultipleGuardlessTransitions);
        }
        proof {
            assert(state_problem(states@, i as int, inputs@) is None);
        }
        if is_global {
            has_global = true;
        }
    }
    Ok(())
}

} // verus!
