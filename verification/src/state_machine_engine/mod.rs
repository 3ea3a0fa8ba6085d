//! The state machine engine: definitions, actions, and their rules.
use vstd::prelude::*;

pub mod actions;
pub mod engine;
pub mod events;
pub mod inputs;
pub mod interactions;
pub mod listeners;
pub mod rng;
pub mod security;
pub mod state_machine;
pub mod state_slots;
pub mod states;
pub mod transitions;
pub mod triggers;

use crate::state_machine_engine::actions::{all_guards_satisfied, guards_pass};
use crate::state_machine::inputs::InputsView;
use crate::state_machine_engine::inputs::InputManager;
use crate::state_machine_engine::states::{state_name, State, StateTrait};
use crate::state_machine_engine::transitions::{transition_guards, Transition, TransitionTrait};
use crate::text::{same_text, texts};

verus! {

/// Whether the engine runs, is between states, or is stopped.
#[derive(Debug, Clone, Copy, PartialEq, Eq, Structural)]
pub enum StateMachineEngineStatus {
    Running,
    Tweening,
    Stopped,
}

/// What went wrong in the engine.
#[derive(Debug, Clone, PartialEq)]
pub enum StateMachineEngineError {
    ParsingError(String),
    CreationError,
    FireEventError,
    InfiniteLoopError,
    NotRunningError,
    SetStateError,
    SecurityCheckErrorMultipleGuardlessTransitions,
    SecurityCheckErrorDuplicateStateName,
}

/// Where a state named in a definition lives.
#[derive(Debug, Clone, Copy, PartialEq, Eq, Structural)]
pub enum StateRef {
    /// The global state.
    Global,
    /// The state at this index of the definition's states.
    Listed(usize),
}

/// The state named `name`: the global state when it has that name, else the
/// first of `states` that has it; none when no state has it.
pub open spec fn state_named(global: Option<State>, states: Seq<State>, name: Seq<char>) -> Option<StateRef> {
    if (global matches Some(g) && state_name(g) == name) {
        Some(StateRef::Global)
    } else if exists|i: int| 0 <= i < states.len() && state_name(#[trigger] states[i]) == name {
        let i = choose|i: int| 0 <= i < states.len() && state_name(states[i]) == name && forall|j: int|
            0 <= j < i ==> state_name(#[trigger] states[j]) != name;
        Some(StateRef::Listed(i as usize))
    } else {
        None
    }
}

/// The first state named `name` is the one `state_named` gives.
proof fn lemma_first_named(global: Option<State>, states: Seq<State>, name: Seq<char>, i: int)
    requires
        !(global matches Some(g) && state_name(g) == name),
        0 <= i < states.len(),
        i < usize::MAX,
        state_name(states[i]) == name,
        forall|j: int| 0 <= j < i ==> state_name(#[trigger] states[j]) != name,
    ensures
        state_named(global, states, name) == Some(StateRef::Listed(i as usize)),
{
    let c = choose|k: int| 0 <= k < states.len() && state_name(states[k]) == name && forall|j: int|
        0 <= j < k ==> state_name(#[trigger] states[j]) != name;
    assert(0 <= c < states.len() && state_name(states[c]) == name && forall|j: int|
        0 <= j < c ==> state_name(#[trigger] states[j]) != name);
    if c < i {
        assert(state_name(states[c]) != name);
    } else if c > i {
        assert(state_name(states[i]) != name);
    }
}

/// The state a reference points at, as a value.
pub open spec fn owned(s: Option<&State>) -> Option<State> {
    match s {
        Some(r) => Some(*r),
        None => None,
    }
}

/// Where the state named `name` lives (see `state_named`).
pub fn find_state(global: Option<&State>, states: &Vec<State>, name: &str) -> (r: Option<StateRef>)
    ensures
        r == state_named(owned(global), states@, name@),
        r matches Some(StateRef::Listed(i)) ==> i < states@.len(),
        r == Some(StateRef::Global) ==> global is Some,
{
    if let Some(g) = global {
        if same_text(g.name().as_str(), name) {
            return Some(StateRef::Global);
        }
    }
    for i in 0..states.len()
        invariant
            !(owned(global) matches Some(g) && state_name(g) == name@),
            forall|j: int| 0 <= j < i ==> state_name(#[trigger] states@[j]) != name@,
    {
        if same_text(states[i].name().as_str(), name) {
            proof {
                lemma_first_named(owned(global), states@, name@, i as int);
            }
            return Some(StateRef::Listed(i));
        }
    }
    None
}

/// What happens after the current state is left for a new one.
#[derive(Debug, Clone, Copy, PartialEq, Eq, Structural)]
pub enum StateChangeNext {
    /// Enter the new state.
    Enter,
    /// Ask the player to tween to the new state's first (or, playing in
    /// reverse, last) frame; enter it once the tween ends, or at once when
    /// the player refuses.
    TryTween,
    /// Stay: a tweened transition to the global state enters nothing.
    Stay,
}

/// How to change to the state named `target_name`.
#[derive(Debug, Clone, Copy, PartialEq, Eq, Structural)]
pub struct StateChange {
    pub target: StateRef,
    /// Whether the current state's exit actions run.
    pub run_exit_actions: bool,
    pub next: StateChangeNext,
}

/// The state a reference names.
pub open spec fn state_at(global: Option<State>, states: Seq<State>, r: StateRef) -> State {
    match r {
        StateRef::Global => global->0,
        StateRef::Listed(i) => states[i as int],
    }
}

/// The playback animation of a state; empty for the global state.
pub open spec fn animation_of(s: State) -> Seq<char> {
    match s {
        State::PlaybackState { animation, .. } => animation@,
        State::GlobalState { .. } => Seq::empty(),
    }
}

/// How the engine changes to the state named `target_name`: an error when no
/// state has that name; else the current state's exit actions run unless
/// the change comes from the global state; a tweened transition into a
/// playback state with the current state's animation tweens first, one into
/// the global state stays; any other change enters the new state.
pub open spec fn state_change_of(
    global: Option<State>,
    states: Seq<State>,
    current: Option<State>,
    target_name: Seq<char>,
    causing_is_tweened: bool,
    called_from_global: bool,
) -> Option<StateChange> {
    match state_named(global, states, target_name) {
        None => None,
        Some(r) => {
            let target = state_at(global, states, r);
            Some(
                StateChange {
                    target: r,
                    run_exit_actions: current is Some && !called_from_global,
                    next: if causing_is_tweened && target is GlobalState {
                        StateChangeNext::Stay
                    } else if causing_is_tweened && (current matches Some(c) && animation_of(c)
                        == animation_of(target)) {
                        StateChangeNext::TryTween
                    } else {
                        StateChangeNext::Enter
                    },
                },
            )
        },
    }
}

/// How a state change goes: a change to a state that exists leaves the
/// current one with its exit actions unless there is none or the global
/// state made the change; a change that is not tweened enters the new state
/// at once; a tweened one into a playback state with the current state's
/// animation tweens first; a tweened one into the global state stays. A
/// name no state has gives no change.
pub proof fn law_state_change(
    global: Option<State>,
    states: Seq<State>,
    current: Option<State>,
    target_name: Seq<char>,
    tweened: bool,
    from_global: bool,
)
    ensures
        state_named(global, states, target_name) is None ==> state_change_of(
            global,
            states,
            current,
            target_name,
            tweened,
            from_global,
        ) is None,
        state_named(global, states, target_name) matches Some(r) ==> ({
            let c = state_change_of(global, states, current, target_name, tweened, from_global)->0;
            let target = state_at(global, states, r);
            &&& state_change_of(global, states, current, target_name, tweened, from_global) is Some
            &&& c.target == r
            &&& c.run_exit_actions == (current is Some && !from_global)
            &&& !tweened ==> c.next == StateChangeNext::Enter
            &&& tweened && target is GlobalState ==> c.next == StateChangeNext::Stay
            &&& (tweened && target is PlaybackState && (current matches Some(cur) && animation_of(cur) == animation_of(
                target,
            ))) ==> c.next == StateChangeNext::TryTween
            &&& tweened && target is PlaybackState && !(current matches Some(cur) && animation_of(cur)
                == animation_of(target)) ==> c.next == StateChangeNext::Enter
        }),
{
}

/// How to change to the state named `target_name` from `current`, for a
/// change caused by `causing` (none when forced) and made from the global
/// state or not (see `state_change_of`); `None` when no state has that name.
pub fn plan_state_change(
    global: Option<&State>,
    states: &Vec<State>,
    current: Option<&State>,
    target_name: &str,
    causing: Option<&Transition>,
    called_from_global: bool,
) -> (r: Option<StateChange>)
    ensures
        r matches Some(c) ==> (c.target matches StateRef::Listed(i) ==> i < states@.len()),
        r == state_change_of(
            owned(global),
            states@,
            owned(current),
            target_name@,
            causing matches Some(t) && *t is Tweened,
            called_from_global,
        ),
{
    let target = match find_state(global, states, target_name) {
        Some(t) => t,
        None => return None,
    };
    let state = match target {
        StateRef::Global => match global {
            Some(g) => g,
            None => return None,
        },
        StateRef::Listed(i) => &states[i],
    };
    let tweened = match causing {
        Some(Transition::Tweened { .. }) => true,
        _ => false,
    };
    let next = if tweened && matches!(state, State::GlobalState { .. }) {
        StateChangeNext::Stay
    } else if tweened && match current {
        Some(c) => same_text(c.animation(), state.animation()),
        None => false,
    } {
        StateChangeNext::TryTween
    } else {
        StateChangeNext::Enter
    };
    Some(StateChange { target, run_exit_actions: current.is_some() && !called_from_global, next })
}

/// Whether the last state of `history` was visited before: the state
/// machine has come round a cycle.
pub open spec fn closes_cycle(history: Seq<Seq<char>>) -> bool {
    history.len() > 0 && exists|j: int| 0 <= j < history.len() - 1 && #[trigger] history[j] == history.last()
}

/// Whether the last state of `history` was visited before (see
/// `closes_cycle`).
pub fn detect_cycle(history: &[String]) -> (b: bool)
    ensures
        b == closes_cycle(texts(history@)),
{
    let ghost names = texts(history@);
    if history.len() == 0 {
        return false;
    }
    let last = history[history.len() - 1].as_str();
    for j in 0..history.len() - 1
        invariant
            history.len() > 0,
            names == texts(history@),
            last@ == names.last(),
            forall|k: int| 0 <= k < j ==> #[trigger] names[k] != names.last(),
    {
        if same_text(history[j].as_str(), last) {
            assert(names[j as int] == names.last());
            return true;
        }
    }
    false
}

/// Whether a transition has no guards (none at all, or an empty list).
pub open spec fn is_guardless(t: Transition) -> bool {
    match transition_guards(t) {
        None => true,
        Some(gs) => gs@.len() == 0,
    }
}

/// Whether one of a transition's guards waits for an event.
pub open spec fn waits_for_event(t: Transition) -> bool {
    transition_guards(t) matches Some(gs) && exists|i: int| 0 <= i < gs@.len() && #[trigger] gs@[i] is Event
}

/// Whether a guarded transition fires: it is looked at only when it waits
/// for an event exactly when one is pending, and then every guard must pass
/// (in order of priority, all of them).
pub open spec fn fires(t: Transition, inputs: InputsView, event: Option<Seq<char>>) -> bool {
    &&& !is_guardless(t)
    &&& waits_for_event(t) == (event is Some)
    &&& guards_pass(transition_guards(t), inputs, event)
}

/// The transition that `ts` take, as an index: the first guarded one that
/// fires; when none does, the last transition without guards; else none.
pub open spec fn chosen_transition(ts: Seq<Transition>, inputs: InputsView, event: Option<Seq<char>>) -> Option<
    int,
> {
    if exists|i: int| 0 <= i < ts.len() && fires(#[trigger] ts[i], inputs, event) {
        Some(choose|i: int| 0 <= i < ts.len() && fires(ts[i], inputs, event) && forall|j: int|
            0 <= j < i ==> !fires(#[trigger] ts[j], inputs, event))
    } else if exists|i: int| 0 <= i < ts.len() && is_guardless(#[trigger] ts[i]) {
        Some(choose|i: int| 0 <= i < ts.len() && is_guardless(ts[i]) && forall|j: int|
            i < j < ts.len() ==> !is_guardless(#[trigger] ts[j]))
    } else {
        None
    }
}

/// The first transition that fires is the one taken, whatever comes after
/// it.
pub proof fn lemma_first_firing(ts: Seq<Transition>, inputs: InputsView, event: Option<Seq<char>>, i: int)
    requires
        0 <= i < ts.len(),
        fires(ts[i], inputs, event),
        forall|j: int| 0 <= j < i ==> !fires(#[trigger] ts[j], inputs, event),
    ensures
        chosen_transition(ts, inputs, event) == Some(i),
{
    let c = choose|k: int| 0 <= k < ts.len() && fires(ts[k], inputs, event) && forall|j: int|
        0 <= j < k ==> !fires(#[trigger] ts[j], inputs, event);
    assert(0 <= c < ts.len() && fires(ts[c], inputs, event) && forall|j: int|
        0 <= j < c ==> !fires(#[trigger] ts[j], inputs, event));
    if c < i {
        assert(!fires(ts[c], inputs, event));
    } else if c > i {
        assert(!fires(ts[i], inputs, event));
    }
}

/// When nothing fires, the last transition without guards is the one taken.
pub proof fn lemma_last_guardless(ts: Seq<Transition>, inputs: InputsView, event: Option<Seq<char>>, g: int)
    requires
        0 <= g < ts.len(),
        is_guardless(ts[g]),
        forall|j: int| g < j < ts.len() ==> !is_guardless(#[trigger] ts[j]),
        forall|j: int| 0 <= j < ts.len() ==> !fires(#[trigger] ts[j], inputs, event),
    ensures
        chosen_transition(ts, inputs, event) == Some(g),
{
    let c = choose|k: int| 0 <= k < ts.len() && is_guardless(ts[k]) && forall|j: int|
        k < j < ts.len() ==> !is_guardless(#[trigger] ts[j]);
    assert(0 <= c < ts.len() && is_guardless(ts[c]) && forall|j: int|
        c < j < ts.len() ==> !is_guardless(#[trigger] ts[j]));
    if c < g {
        assert(!is_guardless(ts[g]));
    } else if c > g {
        assert(!is_guardless(ts[c]));
    }
}

/// Which transition of a state to take, given the inputs and the event
/// pending, if any (see `chosen_transition`): its index in `transitions`.
pub fn evaluate_transitions(transitions: &Vec<Transition>, inputs: &InputManager, event: Option<&str>) -> (r:
    Option<usize>)
    ensures
        ({
            let chosen = chosen_transition(
                transitions@,
                inputs@,
                match event {
                    Some(e) => Some(e@),
                    None => None,
                },
            );
            match r {
                Some(i) => i < transitions@.len() && chosen == Some(i as int),
                None => chosen is None,
            }
        }),
{
    let ghost ev = match event {
        Some(e) => Some(e@),
        None => None::<Seq<char>>,
    };
    let mut guardless: Option<usize> = None;
    for i in 0..transitions.len()
        invariant
            ev == match event {
                Some(e) => Some(e@),
                None => None::<Seq<char>>,
            },
            forall|j: int| 0 <= j < i ==> !fires(#[trigger] transitions@[j], inputs@, ev),
            match guardless {
                Some(g) => g < i && is_guardless(transitions@[g as int]) && forall|j: int|
                    g < j < i ==> !is_guardless(#[trigger] transitions@[j]),
                None => forall|j: int| 0 <= j < i ==> !is_guardless(#[trigger] transitions@[j]),
            },
    {
        let transition = &transitions[i];
        let no_guards = match transition.guards() {
            None => true,
            Some(gs) => gs.len() == 0,
        };
        if no_guards {
            guardless = Some(i);
        } else if transition.transitions_contain_event() == event.is_some() {
            if all_guards_satisfied(transition.guards(), inputs, event) {
                proof {
                    lemma_first_firing(transitions@, inputs@, ev, i as int);
                }
                return Some(i);
            }
        }
    }
    proof {
        match guardless {
            Some(g) => lemma_last_guardless(transitions@, inputs@, ev, g as int),
            None => {
                assert(!exists|k: int| 0 <= k < transitions@.len() && fires(#[trigger] transitions@[k], inputs@, ev));
                assert(!exists|k: int| 0 <= k < transitions@.len() && is_guardless(#[trigger] transitions@[k]));
            },
        }
    }
    guardless
}

} // verus!
