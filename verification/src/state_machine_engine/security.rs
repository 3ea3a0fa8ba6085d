//! Load-time checks of an engine definition.
use vstd::prelude::*;

use crate::state_machine_engine::actions::Action;
use crate::state_machine_engine::is_guardless;
use crate::state_machine_engine::inputs::Input;
use crate::state_machine_engine::interactions::{interaction_actions, Interaction, InteractionTrait};
use crate::state_machine_engine::state_machine::{StringBool, StringNumberBool};
use crate::state_machine_engine::states::{
    elapsed_time_name, state_name, state_transitions, State, StateTrait,
};
use crate::state_machine_engine::transitions::guard::Guard;
use crate::state_machine_engine::transitions::{guard_seq, transition_guards, Transition, TransitionTrait};
use crate::text::{chars_eq, chars_of, trim_start_char, trim_start_char_in};

verus! {

/// Why an engine definition is refused.
#[derive(Debug, Clone, Copy, PartialEq, Eq, Structural)]
pub enum StateMachineEngineSecurityError {
    SecurityCheckErrorMultipleGuardlessTransitions,
    SecurityCheckErrorDuplicateStateName,
    SecurityCheckErrorInputCompareToIsWrong,
    MultipleGlobalStates,
    ReservedInputName,
    ReservedInputWriteFromAction,
}

/// Whether `inputs` declares an event named `name`.
pub open spec fn declares_event(inputs: Option<Vec<Input>>, name: Seq<char>) -> bool {
    match inputs {
        Some(list) => exists|i: int| 0 <= i < list@.len() && (#[trigger] list@[i] matches Input::Event { name: n } && n@ == name),
        None => false,
    }
}

/// Whether `inputs` declares an event named `name`.
fn event_declared(inputs: &Option<Vec<Input>>, name: &str) -> (b: bool)
    ensures
        b == declares_event(*inputs, name@),
{
    if let Some(list) = inputs {
        for i in 0..list.len()
            invariant
                *inputs == Some(*list),
                forall|j: int| 0 <= j < i ==> !(#[trigger] list@[j] matches Input::Event { name: n } && n@ == name@),
        {
            if let Input::Event { name: n } = &list[i] {
                if chars_eq(&chars_of(n.as_str()), &chars_of(name)) {
                    return true;
                }
            }
        }
    }
    false
}

/// `Err(SecurityCheckErrorInputCompareToIsWrong)` when an event guard of
/// `transition` names an event that `inputs` does not declare.
pub fn check_guards_for_existing_events(inputs: &Option<Vec<Input>>, transition: &Transition) -> (r: Result<
    (),
    StateMachineEngineSecurityError,
>)
    ensures
        r is Ok == forall|i: int|
            0 <= i < guard_seq(*transition).len() ==> (#[trigger] guard_seq(*transition)[i] matches Guard::Event {
                input_name,
            } ==> declares_event(*inputs, input_name@)),
        r matches Err(e) ==> e == StateMachineEngineSecurityError::SecurityCheckErrorInputCompareToIsWrong,
{
    if let Some(guards) = transition.guards() {
        for i in 0..guards.len()
            invariant
                guard_seq(*transition) == guards@,
                forall|j: int|
                    0 <= j < i ==> (#[trigger] guards@[j] matches Guard::Event { input_name } ==> declares_event(
                        *inputs,
                        input_name@,
                    )),
        {
            if let Guard::Event { input_name } = &guards[i] {
                if !event_declared(inputs, input_name.as_str()) {
                    return Err(StateMachineEngineSecurityError::SecurityCheckErrorInputCompareToIsWrong);
                }
            }
        }
    }
    Ok(())
}

/// The three kinds of input a guard's `compareTo` can refer to.
#[derive(Clone, Copy, PartialEq, Eq, Structural)]
enum ValueKind {
    Numeric,
    String,
    Boolean,
}

/// Whether `input` is an input of kind `kind` named `name`.
spec fn names_input(input: Input, kind: ValueKind, name: Seq<char>) -> bool {
    match kind {
        ValueKind::Numeric => input matches Input::Numeric { name: n, .. } && n@ == name,
        ValueKind::String => input matches Input::String { name: n, .. } && n@ == name,
        ValueKind::Boolean => input matches Input::Boolean { name: n, .. } && n@ == name,
    }
}

/// Whether `inputs` declares a numeric input named `name`.
pub open spec fn declares_numeric(inputs: Option<Vec<Input>>, name: Seq<char>) -> bool {
    match inputs {
        Some(list) => exists|i: int| 0 <= i < list@.len() && (#[trigger] list@[i] matches Input::Numeric { name: n, .. } && n@ == name),
        None => false,
    }
}

/// Whether `inputs` declares a string input named `name`.
pub open spec fn declares_string(inputs: Option<Vec<Input>>, name: Seq<char>) -> bool {
    match inputs {
        Some(list) => exists|i: int| 0 <= i < list@.len() && (#[trigger] list@[i] matches Input::String { name: n, .. } && n@ == name),
        None => false,
    }
}

/// Whether `inputs` declares a boolean input named `name`.
pub open spec fn declares_boolean(inputs: Option<Vec<Input>>, name: Seq<char>) -> bool {
    match inputs {
        Some(list) => exists|i: int| 0 <= i < list@.len() && (#[trigger] list@[i] matches Input::Boolean { name: n, .. } && n@ == name),
        None => false,
    }
}

/// Whether the reference in `guard`'s `compareTo`, if it holds one, names a
/// declared input of the guard's kind, with its leading `$`s taken off:
/// - a boolean guard's text refers to a boolean input;
/// - a numeric guard's text refers to a numeric input, unless it is the
///   elapsed-time reference, which needs no declaration;
/// - a string guard's text refers to a string input only when it starts
///   with `$` (otherwise it is a literal);
/// - event guards and literal values refer to nothing.
pub open spec fn compare_to_declared(guard: Guard, inputs: Option<Vec<Input>>) -> bool {
    match guard {
        Guard::Boolean { compare_to: StringBool::String(s), .. } => declares_boolean(
            inputs,
            trim_start_char(s@, '$'),
        ),
        Guard::Numeric { compare_to: StringNumberBool::String(s), .. } => s@ == elapsed_time_name()
            || declares_numeric(inputs, trim_start_char(s@, '$')),
        Guard::String { compare_to: StringNumberBool::String(s), .. } => !(s@.len() > 0 && s@[0]
            == '$') || declares_string(inputs, trim_start_char(s@, '$')),
        _ => true,
    }
}

/// Whether `inputs` declares an input of kind `kind` named `name`.
fn input_declared(inputs: &Option<Vec<Input>>, kind: ValueKind, name: &Vec<char>) -> (b: bool)
    ensures
        b == match kind {
            ValueKind::Numeric => declares_numeric(*inputs, name@),
            ValueKind::String => declares_string(*inputs, name@),
            ValueKind::Boolean => declares_boolean(*inputs, name@),
        },
{
    if let Some(list) = inputs {
        for i in 0..list.len()
            invariant
                *inputs == Some(*list),
                forall|j: int| 0 <= j < i ==> !names_input(#[trigger] list@[j], kind, name@),
        {
            let found = match (&list[i], kind) {
                (Input::Numeric { name: n, .. }, ValueKind::Numeric) => chars_eq(&chars_of(n.as_str()), name),
                (Input::String { name: n, .. }, ValueKind::String) => chars_eq(&chars_of(n.as_str()), name),
                (Input::Boolean { name: n, .. }, ValueKind::Boolean) => chars_eq(&chars_of(n.as_str()), name),
                _ => false,
            };
            if found {
                return true;
            }
        }
        proof {
            assert forall|j: int| 0 <= j < list@.len() implies !(#[trigger] list@[j] matches Input::Numeric {
                name: n,
                ..
            } && n@ == name@) || kind != ValueKind::Numeric by {
                assert(!names_input(list@[j], kind, name@));
            }
            assert forall|j: int| 0 <= j < list@.len() implies !(#[trigger] list@[j] matches Input::String {
                name: n,
                ..
            } && n@ == name@) || kind != ValueKind::String by {
                assert(!names_input(list@[j], kind, name@));
            }
            assert forall|j: int| 0 <= j < list@.len() implies !(#[trigger] list@[j] matches Input::Boolean {
                name: n,
                ..
            } && n@ == name@) || kind != ValueKind::Boolean by {
                assert(!names_input(list@[j], kind, name@));
            }
        }
    }
    false
}

/// Whether the reference in `guard`'s `compareTo` names a declared input.
fn guard_compare_to_declared(inputs: &Option<Vec<Input>>, guard: &Guard) -> (b: bool)
    ensures
        b == compare_to_declared(*guard, *inputs),
{
    match guard {
        Guard::Boolean { compare_to: StringBool::String(s), .. } => {
            let name = trim_start_char_in(&chars_of(s.as_str()), '$');
            input_declared(inputs, ValueKind::Boolean, &name)
        },
        Guard::Numeric { compare_to: StringNumberBool::String(s), .. } => {
            let text = chars_of(s.as_str());
            if chars_eq(&text, &chars_of("@elapsedTime")) {
                proof {
                    reveal_strlit("@elapsedTime");
                }
                true
            } else {
                let name = trim_start_char_in(&text, '$');
                input_declared(inputs, ValueKind::Numeric, &name)
            }
        },
        Guard::String { compare_to: StringNumberBool::String(s), .. } => {
            let text = chars_of(s.as_str());
            if text.len() > 0 && text[0] == '$' {
                let name = trim_start_char_in(&text, '$');
                input_declared(inputs, ValueKind::String, &name)
            } else {
                true
            }
        },
        _ => true,
    }
}

/// `Err(SecurityCheckErrorInputCompareToIsWrong)` when a guard of
/// `transition` compares with a `$`-reference to an input that `inputs`
/// does not declare with the guard's kind (see `compare_to_declared`).
pub fn check_guards_for_existing_inputs(inputs: &Option<Vec<Input>>, transition: &Transition) -> (r: Result<
    (),
    StateMachineEngineSecurityError,
>)
    ensures
        r is Ok == forall|i: int|
            0 <= i < guard_seq(*transition).len() ==> compare_to_declared(
                #[trigger] guard_seq(*transition)[i],
                *inputs,
            ),
        r matches Err(e) ==> e == StateMachineEngineSecurityError::SecurityCheckErrorInputCompareToIsWrong,
{
    if let Some(guards) = transition.guards() {
        for i in 0..guards.len()
            invariant
                guard_seq(*transition) == guards@,
                forall|j: int| 0 <= j < i ==> compare_to_declared(#[trigger] guards@[j], *inputs),
        {
            if !guard_compare_to_declared(inputs, &guards[i]) {
                return Err(StateMachineEngineSecurityError::SecurityCheckErrorInputCompareToIsWrong);
            }
        }
    }
    Ok(())
}

/// Whether `action` writes to the built-in elapsed-time input.
pub open spec fn writes_elapsed_time(action: Action) -> bool {
    match action {
        Action::Increment { input_name, .. } => input_name@ == elapsed_time_name(),
        Action::Decrement { input_name, .. } => input_name@ == elapsed_time_name(),
        Action::Toggle { input_name, .. } => input_name@ == elapsed_time_name(),
        Action::SetBoolean { input_name, .. } => input_name@ == elapsed_time_name(),
        Action::SetString { input_name, .. } => input_name@ == elapsed_time_name(),
        Action::SetNumeric { input_name, .. } => input_name@ == elapsed_time_name(),
        Action::Fire { input_name, .. } => input_name@ == elapsed_time_name(),
        Action::Reset { input_name, .. } => input_name@ == elapsed_time_name(),
        _ => false,
    }
}

/// Whether one of `actions` writes to the elapsed-time input.
pub open spec fn one_writes_elapsed_time(actions: Seq<Action>) -> bool {
    exists|i: int| 0 <= i < actions.len() && writes_elapsed_time(#[trigger] actions[i])
}

/// Whether one of `actions`, if there are any, writes to the elapsed-time
/// input.
pub open spec fn some_writes_elapsed_time(actions: Option<Vec<Action>>) -> bool {
    match actions {
        Some(v) => one_writes_elapsed_time(v@),
        None => false,
    }
}

/// The name an input is declared under.
pub open spec fn declared_name(input: Input) -> Seq<char> {
    match input {
        Input::Numeric { name, .. } => name@,
        Input::String { name, .. } => name@,
        Input::Boolean { name, .. } => name@,
        Input::Event { name } => name@,
    }
}

/// Whether one of `inputs` is declared under the elapsed-time input's name.
pub open spec fn one_named_elapsed_time(inputs: Seq<Input>) -> bool {
    exists|i: int| 0 <= i < inputs.len() && declared_name(#[trigger] inputs[i]) == elapsed_time_name()
}

/// Whether `inputs` declares an input under the elapsed-time input's name.
pub open spec fn declares_elapsed_time(inputs: Option<Vec<Input>>) -> bool {
    match inputs {
        Some(v) => one_named_elapsed_time(v@),
        None => false,
    }
}

/// The entry actions of a state.
pub open spec fn state_entry_actions(s: State) -> Option<Vec<Action>> {
    match s {
        State::PlaybackState { entry_actions, .. } => entry_actions,
        State::GlobalState { entry_actions, .. } => entry_actions,
    }
}

/// The exit actions of a state.
pub open spec fn state_exit_actions(s: State) -> Option<Vec<Action>> {
    match s {
        State::PlaybackState { exit_actions, .. } => exit_actions,
        State::GlobalState { exit_actions, .. } => exit_actions,
    }
}

/// Whether every guard of `t` refers to declared inputs: its `compareTo`
/// (see `compare_to_declared`), and, for an event guard, its event.
pub open spec fn transition_refs_declared(t: Transition, inputs: Option<Vec<Input>>) -> bool {
    &&& forall|i: int| 0 <= i < guard_seq(t).len() ==> compare_to_declared(#[trigger] guard_seq(t)[i], inputs)
    &&& forall|i: int|
        0 <= i < guard_seq(t).len() ==> (#[trigger] guard_seq(t)[i] matches Guard::Event { input_name }
            ==> declares_event(inputs, input_name@))
}

/// How many of `ts` have no guards: none at all, or an empty list (see
/// `is_guardless`).
pub open spec fn guardless_count(ts: Seq<Transition>) -> nat
    decreases ts.len(),
{
    if ts.len() == 0 {
        0
    } else {
        guardless_count(ts.drop_last()) + if is_guardless(ts.last()) {
            1nat
        } else {
            0nat
        }
    }
}

/// What is wrong with the state at `i`, given that the states before it are
/// fine, looked at in this order: an entry or exit action writes to the
/// elapsed-time input; a second global state; a name used before; a guard
/// that refers to an undeclared input or event; more than one transition
/// without guards.
pub open spec fn engine_state_problem(states: Seq<State>, i: int, inputs: Option<Vec<Input>>) -> Option<
    StateMachineEngineSecurityError,
> {
    let s = states[i];
    let ts = state_transitions(s);
    if some_writes_elapsed_time(state_entry_actions(s)) || some_writes_elapsed_time(state_exit_actions(s)) {
        Some(StateMachineEngineSecurityError::ReservedInputWriteFromAction)
    } else if s is GlobalState && exists|j: int| 0 <= j < i && #[trigger] states[j] is GlobalState {
        Some(StateMachineEngineSecurityError::MultipleGlobalStates)
    } else if exists|j: int| 0 <= j < i && state_name(#[trigger] states[j]) == state_name(s) {
        Some(StateMachineEngineSecurityError::SecurityCheckErrorDuplicateStateName)
    } else if exists|k: int| 0 <= k < ts.len() && !transition_refs_declared(#[trigger] ts[k], inputs) {
        Some(StateMachineEngineSecurityError::SecurityCheckErrorInputCompareToIsWrong)
    } else if guardless_count(ts) > 1 {
        Some(StateMachineEngineSecurityError::SecurityCheckErrorMultipleGuardlessTransitions)
    } else {
        None
    }
}

/// Whether `action` writes to the elapsed-time input.
fn action_writes_elapsed_time(action: &Action) -> (b: bool)
    ensures
        b == writes_elapsed_time(*action),
{
    let target = match action {
        Action::Increment { input_name, .. } => Some(input_name),
        Action::Decrement { input_name, .. } => Some(input_name),
        Action::Toggle { input_name, .. } => Some(input_name),
        Action::SetBoolean { input_name, .. } => Some(input_name),
        Action::SetString { input_name, .. } => Some(input_name),
        Action::SetNumeric { input_name, .. } => Some(input_name),
        Action::Fire { input_name, .. } => Some(input_name),
        Action::Reset { input_name, .. } => Some(input_name),
        _ => None,
    };
    match target {
        Some(name) => {
            proof {
                reveal_strlit("@elapsedTime");
            }
            chars_eq(&chars_of(name.as_str()), &chars_of("@elapsedTime"))
        },
        None => false,
    }
}

/// `Err(ReservedInputWriteFromAction)` when one of `actions` writes to the
/// elapsed-time input.
fn check_actions_for_reserved_writes(actions: Option<&Vec<Action>>) -> (r: Result<
    (),
    StateMachineEngineSecurityError,
>)
    ensures
        r is Ok == !some_writes_elapsed_time(
            match actions {
                Some(v) => Some(*v),
                None => None,
            },
        ),
        r matches Err(e) ==> e == StateMachineEngineSecurityError::ReservedInputWriteFromAction,
{
    if let Some(list) = actions {
        for i in 0..list.len()
            invariant
                actions == Some(list),
                forall|j: int| 0 <= j < i ==> !writes_elapsed_time(#[trigger] list@[j]),
        {
            if action_writes_elapsed_time(&list[i]) {
                proof {
                    assert(writes_elapsed_time(list@[i as int]));
                    assert(one_writes_elapsed_time(list@));
                }
                return Err(StateMachineEngineSecurityError::ReservedInputWriteFromAction);
            }
        }
    }
    Ok(())
}

/// `Err(ReservedInputWriteFromAction)` when one of `actions` writes to the
/// elapsed-time input.
fn check_action_list_for_reserved_writes(actions: &[Action]) -> (r: Result<(), StateMachineEngineSecurityError>)
    ensures
        r is Ok == !one_writes_elapsed_time(actions@),
        r matches Err(e) ==> e == StateMachineEngineSecurityError::ReservedInputWriteFromAction,
{
    for i in 0..actions.len()
        invariant
            forall|j: int| 0 <= j < i ==> !writes_elapsed_time(#[trigger] actions@[j]),
    {
        if action_writes_elapsed_time(&actions[i]) {
            proof {
                assert(writes_elapsed_time(actions@[i as int]));
            }
            return Err(StateMachineEngineSecurityError::ReservedInputWriteFromAction);
        }
    }
    Ok(())
}

/// `Err(ReservedInputName)` when `inputs` declares an input under the
/// elapsed-time input's name.
fn check_reserved_input_declaration(inputs: &Option<Vec<Input>>) -> (r: Result<
    (),
    StateMachineEngineSecurityError,
>)
    ensures
        r is Ok == !declares_elapsed_time(*inputs),
        r matches Err(e) ==> e == StateMachineEngineSecurityError::ReservedInputName,
{
    if let Some(list) = inputs {
        for i in 0..list.len()
            invariant
                *inputs == Some(*list),
                forall|j: int| 0 <= j < i ==> declared_name(#[trigger] list@[j]) != elapsed_time_name(),
        {
            let name = match &list[i] {
                Input::Numeric { name, .. } => name,
                Input::String { name, .. } => name,
                Input::Boolean { name, .. } => name,
                Input::Event { name } => name,
            };
            proof {
                reveal_strlit("@elapsedTime");
            }
            if chars_eq(&chars_of(name.as_str()), &chars_of("@elapsedTime")) {
                proof {
                    assert(declared_name(list@[i as int]) == elapsed_time_name());
                    assert(one_named_elapsed_time(list@));
                }
                return Err(StateMachineEngineSecurityError::ReservedInputName);
            }
        }
    }
    Ok(())
}

/// Whether an interaction's actions write to the elapsed-time input (a drag's
/// hooks are not looked at: its gesture runs them).
pub open spec fn interactions_write_elapsed_time(interactions: Option<Vec<Interaction>>) -> bool {
    match interactions {
        Some(v) => one_interaction_writes(v@),
        None => false,
    }
}

/// Whether the actions of one of `s` write to the elapsed-time input.
pub open spec fn one_interaction_writes(s: Seq<Interaction>) -> bool {
    exists|k: int| 0 <= k < s.len() && one_writes_elapsed_time(interaction_actions(#[trigger] s[k]))
}

/// Check an engine definition: its inputs, its states in order, then the
/// actions of its interactions. The first problem found gives the error:
/// - an input declared under the elapsed-time input's name;
/// - the first state with a problem (see `engine_state_problem`);
/// - an interaction action that writes to the elapsed-time input.
pub fn state_machine_state_check_pipeline(
    states: &Vec<State>,
    inputs: &Option<Vec<Input>>,
    interactions: &Option<Vec<Interaction>>,
) -> (r: Result<(), StateMachineEngineSecurityError>)
    ensures
        declares_elapsed_time(*inputs) ==> r == Err::<(), _>(StateMachineEngineSecurityError::ReservedInputName),
        !declares_elapsed_time(*inputs) ==> match r {
            Ok(()) => (forall|i: int| 0 <= i < states@.len() ==> #[trigger] engine_state_problem(states@, i, *inputs) is None)
                && !interactions_write_elapsed_time(*interactions),
            Err(e) => (exists|i: int|
                0 <= i < states@.len() && engine_state_problem(states@, i, *inputs) == Some(e) && forall|j: int|
                    0 <= j < i ==> #[trigger] engine_state_problem(states@, j, *inputs) is None)
                || ((forall|i: int| 0 <= i < states@.len() ==> #[trigger] engine_state_problem(states@, i, *inputs) is None)
                    && e == StateMachineEngineSecurityError::ReservedInputWriteFromAction
                    && interactions_write_elapsed_time(*interactions)),
        },
{
    if let Err(e) = check_reserved_input_declaration(inputs) {
        return Err(e);
    }
    let mut has_global = false;
    for i in 0..states.len()
        invariant
            !declares_elapsed_time(*inputs),
            has_global == exists|j: int| 0 <= j < i && #[trigger] states@[j] is GlobalState,
            forall|j: int| 0 <= j < i ==> #[trigger] engine_state_problem(states@, j, *inputs) is None,
    {
        let state = &states[i];
        if check_actions_for_reserved_writes(state.entry_actions()).is_err()
            || check_actions_for_reserved_writes(state.exit_actions()).is_err() {
            proof {
                assert(engine_state_problem(states@, i as int, *inputs) == Some(
                    StateMachineEngineSecurityError::ReservedInputWriteFromAction,
                ));
            }
            return Err(StateMachineEngineSecurityError::ReservedInputWriteFromAction);
        }
        let is_global = match state {
            State::GlobalState { .. } => true,
            State::PlaybackState { .. } => false,
        };
        if is_global && has_global {
            return Err(StateMachineEngineSecurityError::MultipleGlobalStates);
        }
        let ghost first_ok = !some_writes_elapsed_time(state_entry_actions(states@[i as int]))
            && !some_writes_elapsed_time(state_exit_actions(states@[i as int]))
            && !(states@[i as int] is GlobalState && exists|k: int|
            0 <= k < i && #[trigger] states@[k] is GlobalState);
        assert(first_ok);
        let name = state.name();
        let mut j: usize = 0;
        while j < i
            invariant
                !declares_elapsed_time(*inputs),
                0 <= j <= i < states@.len(),
                state == &states@[i as int],
                name@ == state_name(*state),
                first_ok == (!some_writes_elapsed_time(state_entry_actions(states@[i as int]))
                    && !some_writes_elapsed_time(state_exit_actions(states@[i as int]))
                    && !(states@[i as int] is GlobalState && exists|k: int|
                    0 <= k < i && #[trigger] states@[k] is GlobalState)),
                first_ok,
                forall|k: int| 0 <= k < i ==> #[trigger] engine_state_problem(states@, k, *inputs) is None,
                forall|k: int| 0 <= k < j ==> state_name(#[trigger] states@[k]) != state_name(*state),
            decreases i - j,
        {
            let other = states[j].name();
            if chars_eq(&chars_of(other.as_str()), &chars_of(name.as_str())) {
                proof {
                    assert(state_name(states@[j as int]) == state_name(states@[i as int]));
                    assert(engine_state_problem(states@, i as int, *inputs) == Some(
                        StateMachineEngineSecurityError::SecurityCheckErrorDuplicateStateName,
                    ));
                }
                return Err(StateMachineEngineSecurityError::SecurityCheckErrorDuplicateStateName);
            }
            j = j + 1;
        }
        let transitions = state.transitions();
        let mut guardless: usize = 0;
        for k in 0..transitions.len()
            invariant
                !declares_elapsed_time(*inputs),
                i < states@.len(),
                transitions@ == state_transitions(states@[i as int]),
                first_ok == (!some_writes_elapsed_time(state_entry_actions(states@[i as int]))
                    && !some_writes_elapsed_time(state_exit_actions(states@[i as int]))
                    && !(states@[i as int] is GlobalState && exists|k: int|
                    0 <= k < i && #[trigger] states@[k] is GlobalState)),
                first_ok,
                forall|m: int| 0 <= m < i ==> #[trigger] engine_state_problem(states@, m, *inputs) is None,
                forall|m: int| 0 <= m < i ==> state_name(#[trigger] states@[m]) != state_name(states@[i as int]),
                guardless == guardless_count(transitions@.take(k as int)),
                guardless <= k,
                forall|m: int| 0 <= m < k ==> transition_refs_declared(#[trigger] transitions@[m], *inputs),
        {
            proof {
                assert(transitions@.take(k as int + 1).drop_last() == transitions@.take(k as int));
            }
            let transition = &transitions[k];
            let no_guards = match transition.guards() {
                None => true,
                Some(gs) => gs.len() == 0,
            };
            if no_guards {
                guardless = guardless + 1;
            }
            let checked = match check_guards_for_existing_inputs(inputs, transition) {
                Ok(()) => check_guards_for_existing_events(inputs, transition),
                Err(e) => Err(e),
            };
            if checked.is_err() {
                proof {
                    assert(!transition_refs_declared(transitions@[k as int], *inputs));
                    assert(engine_state_problem(states@, i as int, *inputs) == Some(
                        StateMachineEngineSecurityError::SecurityCheckErrorInputCompareToIsWrong,
                    ));
                }
                return Err(StateMachineEngineSecurityError::SecurityCheckErrorInputCompareToIsWrong);
            }
        }
        proof {
            assert(transitions@.take(transitions@.len() as int) == transitions@);
        }
        if guardless > 1 {
            proof {
                assert(engine_state_problem(states@, i as int, *inputs) == Some(
                    StateMachineEngineSecurityError::SecurityCheckErrorMultipleGuardlessTransitions,
                ));
            }
            return Err(StateMachineEngineSecurityError::SecurityCheckErrorMultipleGuardlessTransitions);
        }
        proof {
            assert(engine_state_problem(states@, i as int, *inputs) is None);
        }
        if is_global {
            has_global = true;
        }
    }
    if let Some(list) = interactions {
        for k in 0..list.len()
            invariant
                *interactions == Some(*list),
                !declares_elapsed_time(*inputs),
                forall|i: int| 0 <= i < states@.len() ==> #[trigger] engine_state_problem(states@, i, *inputs) is None,
                forall|m: int| 0 <= m < k ==> !one_writes_elapsed_time(interaction_actions(#[trigger] list@[m])),
        {
            if check_action_list_for_reserved_writes(list[k].get_actions()).is_err() {
                proof {
                    assert(one_writes_elapsed_time(interaction_actions(list@[k as int])));
                    assert(one_interaction_writes(list@));
                }
                return Err(StateMachineEngineSecurityError::ReservedInputWriteFromAction);
            }
        }
    }
    Ok(())
}

} // verus!
