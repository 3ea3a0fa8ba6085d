//! A running engine between two calls: its status, its current state, the
//! inputs, the pending event and where its pipeline stands. The decisions of
//! the pipeline are made here, one step at a time. The host drives the
//! player, runs the exit and entry actions of the states it leaves and
//! enters (resolved by `resolve_action`, written back through the input
//! setters here), reports whether a tween started, and calls the next step.
use vstd::prelude::*;

use crate::state_machine::inputs::{assigned, declared, restored, InputsView};
use crate::state_machine::{starts_with_char, str_starts_with_char};
use crate::state_machine_engine::actions::effects::{ActionEffect, EffectView};
use crate::state_machine_engine::inputs::{Input, InputManager};
use crate::state_machine_engine::interactions::Interaction;
use crate::state_machine_engine::security::{
    declares_elapsed_time, engine_state_problem, interactions_write_elapsed_time,
    state_machine_state_check_pipeline,
};
use crate::state_machine_engine::states::{state_name, state_transitions, State, StateTrait};
use crate::state_machine_engine::transitions::{Transition, TransitionTrait};
use crate::state_machine_engine::{
    chosen_transition, closes_cycle, detect_cycle, evaluate_transitions, owned, plan_state_change,
    state_at, state_change_of, state_named, StateChange, StateMachineEngineError, StateMachineEngineStatus, StateRef,
};
use crate::text::{chars_of, same_text, texts};

verus! {

/// How many times the pipeline may come round a cycle of states, when the
/// definition gives no limit.
pub const DEFAULT_MAX_CYCLE_COUNT: usize = 20;

/// Where the pipeline stands between two calls of `pipeline_step`.
#[derive(Debug, Clone, Copy, PartialEq, Eq, Structural)]
pub enum PipelinePhase {
    /// No pipeline runs.
    Idle,
    /// The host changes to the state the global state's transitions chose.
    AfterGlobalChange,
    /// The host changes to the state the current state's transitions chose.
    AfterChildChange,
}

/// What a step of the pipeline asks of the host.
#[derive(Debug, Clone, Copy, PartialEq, Eq, Structural)]
pub enum PipelineStep {
    /// The pipeline has ended.
    Done,
    /// Leave the current state and enter (or tween to) another, as the
    /// change says; then call `pipeline_step` again.
    Change(StateChange),
}

/// An engine as a mathematical value.
pub ghost struct EngineView {
    pub initial: Seq<char>,
    pub states: Seq<State>,
    /// The index of the global state among `states`.
    pub global: Option<int>,
    pub status: StateMachineEngineStatus,
    pub current: Option<StateRef>,
    /// The names of the states the pipeline has been in since the last cycle.
    pub history: Seq<Seq<char>>,
    pub cycle_count: nat,
    pub max_cycle_count: nat,
    pub inputs: InputsView,
    pub pending_event: Option<Seq<char>>,
    /// Whether an action has written an input since the pipeline last looked.
    pub action_mutated_inputs: bool,
    /// The state to enter once the running tween ends.
    pub tween_target: Option<StateRef>,
    pub phase: PipelinePhase,
}

/// A state machine engine, loaded from a definition.
pub struct EngineState {
    initial: String,
    states: Vec<State>,
    global: Option<usize>,
    status: StateMachineEngineStatus,
    current: Option<StateRef>,
    history: Vec<String>,
    cycle_count: usize,
    max_cycle_count: usize,
    inputs: InputManager,
    pending_event: Option<String>,
    action_mutated_inputs: bool,
    tween_target: Option<StateRef>,
    phase: PipelinePhase,
}

impl View for EngineState {
    type V = EngineView;

    closed spec fn view(&self) -> EngineView {
        EngineView {
            initial: self.initial@,
            states: self.states@,
            global: match self.global {
                Some(i) => Some(i as int),
                None => None,
            },
            status: self.status,
            current: self.current,
            history: texts(self.history@),
            cycle_count: self.cycle_count as nat,
            max_cycle_count: self.max_cycle_count as nat,
            inputs: self.inputs@,
            pending_event: match self.pending_event {
                Some(e) => Some(e@),
                None => None,
            },
            action_mutated_inputs: self.action_mutated_inputs,
            tween_target: self.tween_target,
            phase: self.phase,
        }
    }
}

/// The global state, if the definition has one.
pub open spec fn global_state(v: EngineView) -> Option<State> {
    match v.global {
        Some(i) => Some(v.states[i]),
        None => None,
    }
}

/// Whether a reference names a state of the engine.
pub open spec fn valid_ref(v: EngineView, r: StateRef) -> bool {
    match r {
        StateRef::Global => v.global is Some,
        StateRef::Listed(i) => i < v.states.len(),
    }
}

/// What every engine keeps: the global index and the state references point
/// into the states, and a running pipeline has not yet reached its cycle
/// limit.
pub open spec fn engine_wf(v: EngineView) -> bool {
    &&& (v.global matches Some(i) ==> 0 <= i < v.states.len() && v.states[i] is GlobalState)
    &&& (v.current matches Some(r) ==> valid_ref(v, r))
    &&& (v.tween_target matches Some(r) ==> valid_ref(v, r))
    &&& v.max_cycle_count <= usize::MAX
    &&& v.cycle_count <= usize::MAX
    &&& (v.phase != PipelinePhase::Idle ==> v.cycle_count == 0 || v.cycle_count < v.max_cycle_count)
}

/// The current state, if any.
pub open spec fn current_state(v: EngineView) -> Option<State> {
    match v.current {
        Some(r) => Some(state_at(global_state(v), v.states, r)),
        None => None,
    }
}

/// The current state's name; empty when there is none.
pub open spec fn current_name(v: EngineView) -> Seq<char> {
    match current_state(v) {
        Some(s) => state_name(s),
        None => Seq::empty(),
    }
}

/// The name of the state a transition leads to.
pub open spec fn transition_target(t: Transition) -> Seq<char> {
    match t {
        Transition::Transition { to_state, .. } => to_state@,
        Transition::Tweened { to_state, .. } => to_state@,
    }
}

/// The end of a pipeline: the pending event is dropped.
pub open spec fn finished(v: EngineView) -> (EngineView, Result<PipelineStep, StateMachineEngineError>) {
    (EngineView { pending_event: None, phase: PipelinePhase::Idle, ..v }, Ok(PipelineStep::Done))
}

/// The current state's transitions are looked at: the one chosen (see
/// `chosen_transition`) consumes the pending event and changes state; a
/// target that names no state, or no transition at all, ends the pipeline.
pub open spec fn child_round(v: EngineView) -> (EngineView, Result<PipelineStep, StateMachineEngineError>) {
    match current_state(v) {
        None => finished(v),
        Some(s) => match chosen_transition(state_transitions(s), v.inputs, v.pending_event) {
            None => finished(v),
            Some(i) => {
                let t = state_transitions(s)[i];
                let v1 = EngineView { pending_event: None, ..v };
                match state_change_of(
                    global_state(v1),
                    v1.states,
                    current_state(v1),
                    transition_target(t),
                    t is Tweened,
                    false,
                ) {
                    None => finished(v1),
                    Some(c) => (
                        EngineView { phase: PipelinePhase::AfterChildChange, ..v1 },
                        Ok(PipelineStep::Change(c)),
                    ),
                }
            },
        },
    }
}

/// The global state's transitions are looked at first: the one chosen
/// consumes the pending event and changes state, unless it leads to the
/// current state or names no state; otherwise the current state's
/// transitions are looked at.
pub open spec fn global_round(v: EngineView) -> (EngineView, Result<PipelineStep, StateMachineEngineError>) {
    match global_state(v) {
        None => child_round(v),
        Some(g) => match chosen_transition(state_transitions(g), v.inputs, v.pending_event) {
            None => child_round(v),
            Some(i) => {
                let t = state_transitions(g)[i];
                let v1 = EngineView { pending_event: None, ..v };
                if transition_target(t) == current_name(v1) {
                    child_round(v1)
                } else {
                    match state_change_of(
                        global_state(v1),
                        v1.states,
                        current_state(v1),
                        transition_target(t),
                        t is Tweened,
                        true,
                    ) {
                        None => child_round(v1),
                        Some(c) => (
                            EngineView { phase: PipelinePhase::AfterGlobalChange, ..v1 },
                            Ok(PipelineStep::Change(c)),
                        ),
                    }
                }
            },
        },
    }
}

/// One round of the pipeline. When the last state visited was visited
/// before, a cycle is counted: at the limit the engine stops with
/// `InfiniteLoopError`, else the history starts anew. The current state
/// joins the history, and the transitions are looked at (the global state's
/// first, unless `ignore_global`).
pub open spec fn round(v: EngineView, ignore_global: bool) -> (EngineView, Result<PipelineStep, StateMachineEngineError>) {
    let detected = closes_cycle(v.history);
    let count = v.cycle_count + 1;
    if detected && count >= v.max_cycle_count {
        (
            EngineView {
                status: StateMachineEngineStatus::Stopped,
                cycle_count: count,
                phase: PipelinePhase::Idle,
                ..v
            },
            Err(StateMachineEngineError::InfiniteLoopError),
        )
    } else {
        let v1 = if detected {
            EngineView { cycle_count: count, history: Seq::empty(), ..v }
        } else {
            v
        };
        let v2 = if v1.current is Some {
            EngineView { history: v1.history.push(current_name(v1)), ..v1 }
        } else {
            v1
        };
        if ignore_global {
            child_round(v2)
        } else {
            global_round(v2)
        }
    }
}

/// After a change made from the global state: a tween ends the pipeline; a
/// written input or a pending event starts a new round from the global
/// state; otherwise the new state's transitions are looked at.
pub open spec fn after_global_change(v: EngineView) -> (EngineView, Result<PipelineStep, StateMachineEngineError>) {
    if v.status == StateMachineEngineStatus::Tweening {
        finished(v)
    } else if v.action_mutated_inputs || v.pending_event is Some {
        round(EngineView { action_mutated_inputs: false, ..v }, false)
    } else {
        child_round(v)
    }
}

/// After a change made from the current state: a tween ends the pipeline; a
/// written input or a pending event starts a new round from the global
/// state; otherwise a new round skips the global state.
pub open spec fn after_child_change(v: EngineView) -> (EngineView, Result<PipelineStep, StateMachineEngineError>) {
    if v.status == StateMachineEngineStatus::Tweening {
        finished(v)
    } else if v.action_mutated_inputs {
        round(EngineView { action_mutated_inputs: false, ..v }, false)
    } else if v.pending_event is Some {
        round(v, false)
    } else {
        round(v, true)
    }
}

/// One step of the pipeline. A new pipeline starts with no cycle counted:
/// it does nothing while a tween runs, and fails with `NotRunningError`
/// unless the engine runs and has a current or a global state.
pub open spec fn pipeline_step_of(v: EngineView) -> (EngineView, Result<PipelineStep, StateMachineEngineError>) {
    match v.phase {
        PipelinePhase::Idle => {
            let v1 = EngineView { cycle_count: 0, ..v };
            if v.status == StateMachineEngineStatus::Tweening {
                (v1, Ok(PipelineStep::Done))
            } else if v.status != StateMachineEngineStatus::Running || (v.current is None && v.global is None) {
                (v1, Err(StateMachineEngineError::NotRunningError))
            } else {
                round(v1, false)
            }
        },
        PipelinePhase::AfterGlobalChange => after_global_change(v),
        PipelinePhase::AfterChildChange => after_child_change(v),
    }
}

/// What a step of the pipeline leaves alone, and how its answer and its
/// phase go together: it asks for a change exactly when it leaves the
/// pipeline waiting for one.
pub open spec fn only_decides(v: EngineView, out: (EngineView, Result<PipelineStep, StateMachineEngineError>)) -> bool {
    &&& out.0.states == v.states
    &&& out.0.initial == v.initial
    &&& out.0.global == v.global
    &&& out.0.inputs == v.inputs
    &&& out.0.current == v.current
    &&& out.0.tween_target == v.tween_target
    &&& out.0.max_cycle_count == v.max_cycle_count
    &&& (out.1 matches Ok(PipelineStep::Change(_))) == (out.0.phase != PipelinePhase::Idle)
    &&& (out.1 == Ok::<PipelineStep, StateMachineEngineError>(PipelineStep::Done) ==> out.0.pending_event is None)
    &&& (out.1 == Err::<PipelineStep, StateMachineEngineError>(StateMachineEngineError::InfiniteLoopError) ==> {
        &&& out.0.status == StateMachineEngineStatus::Stopped
        &&& out.0.phase == PipelinePhase::Idle
        &&& out.0.cycle_count >= v.max_cycle_count
    })
}

/// The current state's round only decides.
proof fn lemma_child_round_decides(v: EngineView)
    ensures
        only_decides(v, child_round(v)),
{
}

/// The global state's round only decides.
proof fn lemma_global_round_decides(v: EngineView)
    ensures
        only_decides(v, global_round(v)),
{
    let v1 = EngineView { pending_event: None, ..v };
    lemma_child_round_decides(v);
    lemma_child_round_decides(v1);
}

/// A round only decides.
proof fn lemma_round_decides(v: EngineView, ignore_global: bool)
    ensures
        only_decides(v, round(v, ignore_global)),
{
    let count = v.cycle_count + 1;
    let v1 = if closes_cycle(v.history) {
        EngineView { cycle_count: count, history: Seq::empty(), ..v }
    } else {
        v
    };
    let v2 = if v1.current is Some {
        EngineView { history: v1.history.push(current_name(v1)), ..v1 }
    } else {
        v1
    };
    lemma_child_round_decides(v2);
    lemma_global_round_decides(v2);
}

/// A step of the pipeline only decides: it leaves the definition, the
/// inputs, the current state and the tween target as they were (the host
/// changes state, through `enter_state` or `begin_tween`); it asks for a
/// change exactly when it leaves the pipeline waiting for one, any other
/// answer ending the pipeline; and a pipeline that ends has consumed the
/// pending event, unless a tween held it back before it began.
pub proof fn law_pipeline_step_only_decides(v: EngineView)
    ensures
        !(v.phase == PipelinePhase::Idle && v.status == StateMachineEngineStatus::Tweening) ==> only_decides(
            v,
            pipeline_step_of(v),
        ),
        v.phase == PipelinePhase::Idle && v.status == StateMachineEngineStatus::Tweening ==> pipeline_step_of(v)
            == (EngineView { cycle_count: 0, ..v }, Ok::<PipelineStep, StateMachineEngineError>(PipelineStep::Done)),
{
    let v1 = EngineView { cycle_count: 0, ..v };
    let v2 = EngineView { action_mutated_inputs: false, ..v };
    lemma_round_decides(v1, false);
    lemma_round_decides(v2, false);
    lemma_round_decides(v, false);
    lemma_round_decides(v, true);
    lemma_child_round_decides(v);
}

/// The global state never re-enters the state the engine is in: when its
/// chosen transition leads to the current state, it asks for no change;
/// the pending event is consumed and the current state's own transitions
/// are looked at instead.
pub proof fn law_global_never_reenters_current(v: EngineView, g: State, i: int)
    requires
        global_state(v) == Some(g),
        chosen_transition(state_transitions(g), v.inputs, v.pending_event) == Some(i),
        transition_target(state_transitions(g)[i]) == current_name(v),
    ensures
        global_round(v) == child_round(EngineView { pending_event: None, ..v }),
        global_round(v).0.phase != PipelinePhase::AfterGlobalChange,
        global_round(v).0.pending_event is None,
        !(global_round(v).1 matches Ok(PipelineStep::Change(c)) && c.target == v.current->0 && !c.run_exit_actions),
{
}

/// The global state's transitions come first: when its chosen transition
/// leads to a state other than the current one, the step asks to change to
/// that state without running the current state's exit actions, and
/// consumes the pending event.
pub proof fn law_global_state_first(v: EngineView, g: State, i: int, target: StateRef)
    requires
        global_state(v) == Some(g),
        chosen_transition(state_transitions(g), v.inputs, v.pending_event) == Some(i),
        transition_target(state_transitions(g)[i]) != current_name(v),
        state_named(global_state(v), v.states, transition_target(state_transitions(g)[i])) == Some(target),
    ensures
        global_round(v).1 matches Ok(PipelineStep::Change(c)) && c.target == target && !c.run_exit_actions,
        global_round(v).0.phase == PipelinePhase::AfterGlobalChange,
        global_round(v).0.pending_event is None,
{
}

/// The current state's chosen transition changes to the state it names,
/// after the current state's exit actions, and consumes the pending event.
pub proof fn law_child_transition_changes_state(v: EngineView, s: State, i: int, target: StateRef)
    requires
        current_state(v) == Some(s),
        chosen_transition(state_transitions(s), v.inputs, v.pending_event) == Some(i),
        state_named(global_state(v), v.states, transition_target(state_transitions(s)[i])) == Some(target),
    ensures
        child_round(v).1 matches Ok(PipelineStep::Change(c)) && c.target == target && c.run_exit_actions,
        child_round(v).0.phase == PipelinePhase::AfterChildChange,
        child_round(v).0.pending_event is None,
{
}

/// A round stops the engine exactly when the last state visited closes a
/// cycle and that cycle brings the count to the limit; any other round goes
/// on, and the current state joins the history (which starts anew after a
/// cycle).
pub proof fn law_round_cycle_limit(v: EngineView, ignore_global: bool)
    ensures
        (closes_cycle(v.history) && v.cycle_count + 1 >= v.max_cycle_count) ==> round(v, ignore_global).1
            == Err::<PipelineStep, StateMachineEngineError>(StateMachineEngineError::InfiniteLoopError)
            && round(v, ignore_global).0.status == StateMachineEngineStatus::Stopped,
        !(closes_cycle(v.history) && v.cycle_count + 1 >= v.max_cycle_count) ==> round(v, ignore_global).1
            != Err::<PipelineStep, StateMachineEngineError>(StateMachineEngineError::InfiniteLoopError)
            && round(v, ignore_global).0.cycle_count == (if closes_cycle(v.history) {
            v.cycle_count + 1
        } else {
            v.cycle_count
        }) && round(v, ignore_global).0.history == (if closes_cycle(v.history) {
            Seq::<Seq<char>>::empty()
        } else {
            v.history
        }) + (if v.current is Some {
            seq![current_name(v)]
        } else {
            Seq::<Seq<char>>::empty()
        }),
{
    let v1 = if closes_cycle(v.history) {
        EngineView { cycle_count: v.cycle_count + 1, history: Seq::empty(), ..v }
    } else {
        v
    };
    let v2 = if v1.current is Some {
        EngineView { history: v1.history.push(current_name(v1)), ..v1 }
    } else {
        v1
    };
    assert(v1.history.push(current_name(v1)) =~= v1.history + seq![current_name(v)]);
    assert(v1.history =~= v1.history + Seq::<Seq<char>>::empty());
    lemma_round_history(v2);
}

/// A round of transitions leaves the history and the count as they were.
proof fn lemma_round_history(v: EngineView)
    ensures
        child_round(v).0.history == v.history,
        child_round(v).0.cycle_count == v.cycle_count,
        child_round(v).1 != Err::<PipelineStep, StateMachineEngineError>(StateMachineEngineError::InfiniteLoopError),
        global_round(v).0.history == v.history,
        global_round(v).0.cycle_count == v.cycle_count,
        global_round(v).1 != Err::<PipelineStep, StateMachineEngineError>(StateMachineEngineError::InfiniteLoopError),
{
}

/// The cycle limit stops the engine: a step that fails with
/// `InfiniteLoopError` leaves it stopped with no pipeline running, after
/// counting as many cycles as the limit allows.
pub proof fn law_infinite_loop_stops(v: EngineView)
    requires
        pipeline_step_of(v).1 == Err::<PipelineStep, StateMachineEngineError>(
            StateMachineEngineError::InfiniteLoopError,
        ),
    ensures
        pipeline_step_of(v).0.status == StateMachineEngineStatus::Stopped,
        pipeline_step_of(v).0.phase == PipelinePhase::Idle,
        pipeline_step_of(v).0.cycle_count >= v.max_cycle_count,
{
    law_pipeline_step_only_decides(v);
}

/// No input declared.
pub open spec fn no_inputs() -> InputsView {
    InputsView {
        numeric: Map::empty(),
        boolean: Map::empty(),
        string: Map::empty(),
        event: Set::empty(),
    }
}

/// The inputs after one more is declared.
pub open spec fn declare_input(m: InputsView, input: Input) -> InputsView {
    match input {
        Input::Numeric { name, value } => InputsView { numeric: declared(m.numeric, name@, value), ..m },
        Input::String { name, value } => InputsView { string: declared(m.string, name@, value@), ..m },
        Input::Boolean { name, value } => InputsView { boolean: declared(m.boolean, name@, value), ..m },
        Input::Event { name } => InputsView { event: m.event.insert(name@), ..m },
    }
}

/// The inputs a definition declares, in order (a name declared twice keeps
/// its last declaration).
pub open spec fn declare_inputs(s: Seq<Input>) -> InputsView
    decreases s.len(),
{
    if s.len() == 0 {
        no_inputs()
    } else {
        declare_input(declare_inputs(s.drop_last()), s.last())
    }
}

/// The index of the last global state of `states`, if any.
pub open spec fn last_global(states: Seq<State>) -> Option<int>
    decreases states.len(),
{
    if states.len() == 0 {
        None
    } else if states.last() is GlobalState {
        Some(states.len() - 1)
    } else {
        last_global(states.drop_last())
    }
}

/// The last global state is one of the states, and a global one.
proof fn lemma_last_global(states: Seq<State>)
    ensures
        last_global(states) matches Some(i) ==> 0 <= i < states.len() && states[i] is GlobalState,
    decreases states.len(),
{
    if states.len() > 0 && !(states.last() is GlobalState) {
        lemma_last_global(states.drop_last());
    }
}

/// Whether a definition passes the load-time checks (see
/// `state_machine_state_check_pipeline`).
pub open spec fn definition_sound(
    states: Seq<State>,
    inputs: Option<Vec<Input>>,
    interactions: Option<Vec<Interaction>>,
) -> bool {
    &&& !declares_elapsed_time(inputs)
    &&& forall|i: int| 0 <= i < states.len() ==> #[trigger] engine_state_problem(states, i, inputs) is None
    &&& !interactions_write_elapsed_time(interactions)
}

/// A freshly loaded engine: stopped, in no state, its inputs declared, with
/// the cycle limit given (20 when none is).
pub open spec fn initial_engine(
    initial: Seq<char>,
    states: Seq<State>,
    inputs: Option<Vec<Input>>,
    max_cycle_count: Option<usize>,
) -> EngineView {
    EngineView {
        initial,
        states,
        global: last_global(states),
        status: StateMachineEngineStatus::Stopped,
        current: None,
        history: Seq::empty(),
        cycle_count: 0,
        max_cycle_count: match max_cycle_count {
            Some(m) => m as nat,
            None => DEFAULT_MAX_CYCLE_COUNT as nat,
        },
        inputs: match inputs {
            Some(v) => declare_inputs(v@),
            None => no_inputs(),
        },
        pending_event: None,
        action_mutated_inputs: false,
        tween_target: None,
        phase: PipelinePhase::Idle,
    }
}

/// Whether an input name is reserved for the engine (it starts with `@`):
/// such inputs are not written from outside.
pub open spec fn reserved_input(key: Seq<char>) -> bool {
    starts_with_char(key, '@')
}

/// The inputs after `key` is put back to its declared value: the numeric
/// inputs are looked at first, then the boolean, then the string ones.
pub open spec fn reset_inputs(m: InputsView, key: Seq<char>) -> InputsView {
    if m.numeric.contains_key(key) {
        InputsView { numeric: restored(m.numeric, key), ..m }
    } else if m.boolean.contains_key(key) {
        InputsView { boolean: restored(m.boolean, key), ..m }
    } else if m.string.contains_key(key) {
        InputsView { string: restored(m.string, key), ..m }
    } else {
        m
    }
}

/// Whether a write from outside is refused: the name is reserved, or a tween
/// runs.
pub open spec fn write_refused(v: EngineView, key: Seq<char>) -> bool {
    reserved_input(key) || v.status == StateMachineEngineStatus::Tweening
}

/// The engine after numeric input `key` is set to `value` (see
/// `set_numeric_input`).
pub open spec fn numeric_written(v: EngineView, key: Seq<char>, value: u32, from_action: bool) -> EngineView {
    if write_refused(v, key) {
        v
    } else {
        EngineView {
            inputs: InputsView { numeric: assigned(v.inputs.numeric, key, value), ..v.inputs },
            action_mutated_inputs: v.action_mutated_inputs || from_action,
            ..v
        }
    }
}

/// The engine after boolean input `key` is set to `value`.
pub open spec fn boolean_written(v: EngineView, key: Seq<char>, value: bool, from_action: bool) -> EngineView {
    if write_refused(v, key) {
        v
    } else {
        EngineView {
            inputs: InputsView { boolean: assigned(v.inputs.boolean, key, value), ..v.inputs },
            action_mutated_inputs: v.action_mutated_inputs || from_action,
            ..v
        }
    }
}

/// The engine after string input `key` is set to `value`.
pub open spec fn string_written(v: EngineView, key: Seq<char>, value: Seq<char>, from_action: bool) -> EngineView {
    if write_refused(v, key) {
        v
    } else {
        EngineView {
            inputs: InputsView { string: assigned(v.inputs.string, key, value), ..v.inputs },
            action_mutated_inputs: v.action_mutated_inputs || from_action,
            ..v
        }
    }
}

/// The engine after input `key` is reset (see `reset_input`).
pub open spec fn input_reset(v: EngineView, key: Seq<char>, from_action: bool) -> EngineView {
    if v.status != StateMachineEngineStatus::Running || reserved_input(key) {
        v
    } else {
        EngineView {
            inputs: reset_inputs(v.inputs, key),
            action_mutated_inputs: v.action_mutated_inputs || from_action,
            ..v
        }
    }
}

/// The engine after event `event` is fired: pending when declared.
pub open spec fn event_fired(v: EngineView, event: Seq<char>) -> EngineView {
    if v.inputs.event.contains(event) {
        EngineView { pending_event: Some(event), ..v }
    } else {
        v
    }
}

/// The engine after it applies what an action asked for: input writes,
/// resets and events, noted as written by an action when `from_action`
/// holds (the actions of states; not those of interactions). Anything else
/// (adding or subtracting `f32` values, driving the player, commands for
/// the host) is left to the host, and changes nothing here.
pub open spec fn effect_applied(v: EngineView, effect: EffectView, from_action: bool) -> EngineView {
    match effect {
        EffectView::SetBoolean { input_name, value } => boolean_written(v, input_name, value, from_action),
        EffectView::SetNumeric { input_name, value } => numeric_written(v, input_name, value, from_action),
        EffectView::SetString { input_name, value } => string_written(v, input_name, value, from_action),
        EffectView::Fire { input_name } => event_fired(v, input_name),
        EffectView::Reset { input_name } => input_reset(v, input_name, from_action),
        _ => v,
    }
}

/// Whether the engine applies an effect itself (see `effect_applied`).
pub open spec fn applied_by_engine(effect: EffectView) -> bool {
    ||| effect is Nothing
    ||| effect is SetBoolean
    ||| effect is SetNumeric
    ||| effect is SetString
    ||| effect is Fire
    ||| effect is Reset
}

impl EngineState {

    /// Load an engine from a definition: its initial state's name, its
    /// states, inputs and interactions, and the cycle limit (20 when none is
    /// given). A definition that fails the load-time checks gives
    /// `CreationError`.
    pub fn from_definition(
        initial: String,
        states: Vec<State>,
        inputs: Option<Vec<Input>>,
        interactions: Option<Vec<Interaction>>,
        max_cycle_count: Option<usize>,
    ) -> (r: Result<EngineState, StateMachineEngineError>)
        ensures
            r is Ok <==> definition_sound(states@, inputs, interactions),
            r matches Err(e) ==> e == StateMachineEngineError::CreationError,
            r matches Ok(e) ==> e@ == initial_engine(initial@, states@, inputs, max_cycle_count)
                && engine_wf(e@),
    {
        if state_machine_state_check_pipeline(&states, &inputs, &interactions).is_err() {
            return Err(StateMachineEngineError::CreationError);
        }
        let mut manager = InputManager::new();
        assert(manager@ == no_inputs());
        if let Some(list) = &inputs {
            for k in 0..list.len()
                invariant
                    manager@ == declare_inputs(list@.take(k as int)),
            {
                assert(list@.take(k + 1).drop_last() =~= list@.take(k as int));
                match &list[k] {
                    Input::Numeric { name, value } => manager.set_initial_numeric(name.as_str(), *value),
                    Input::String { name, value } => manager.set_initial_string(name.as_str(), value.as_str()),
                    Input::Boolean { name, value } => manager.set_initial_boolean(name.as_str(), *value),
                    Input::Event { name } => manager.set_initial_event(name.as_str()),
                }
            }
            assert(list@.take(list.len() as int) =~= list@);
        }
        let mut global: Option<usize> = None;
        for k in 0..states.len()
            invariant
                match global {
                    Some(g) => Some(g as int),
                    None => None,
                } == last_global(states@.take(k as int)),
        {
            assert(states@.take(k + 1).drop_last() =~= states@.take(k as int));
            if let State::GlobalState { .. } = &states[k] {
                global = Some(k);
            }
        }
        assert(states@.take(states.len() as int) =~= states@);
        proof {
            lemma_last_global(states@);
        }
        let limit: usize = match max_cycle_count {
            Some(m) => m,
            None => DEFAULT_MAX_CYCLE_COUNT,
        };
        let e = EngineState {
            initial,
            states,
            global,
            status: StateMachineEngineStatus::Stopped,
            current: None,
            history: Vec::new(),
            cycle_count: 0,
            max_cycle_count: limit,
            inputs: manager,
            pending_event: None,
            action_mutated_inputs: false,
            tween_target: None,
            phase: PipelinePhase::Idle,
        };
        assert(e@.history =~= Seq::<Seq<char>>::empty());
        Ok(e)
    }

    /// Whether the engine runs, tweens or is stopped.
    pub fn status(&self) -> (s: StateMachineEngineStatus)
        ensures
            s == self@.status,
    {
        self.status
    }

    /// The inputs.
    pub fn inputs(&self) -> (m: &InputManager)
        ensures
            m@ == self@.inputs,
    {
        &self.inputs
    }

    /// How to enter the initial state when the engine starts: `None` when
    /// the definition has no initial state or no states (a definition that
    /// failed to load), or when no state has the initial state's name. The
    /// host enters the state (see `enter_state`), then calls `mark_running`.
    pub fn start(&self) -> (r: Option<StateChange>)
        requires
            engine_wf(self@),
        ensures
            r == (if self@.initial.len() == 0 || self@.states.len() == 0 {
                None
            } else {
                state_change_of(
                    global_state(self@),
                    self@.states,
                    current_state(self@),
                    self@.initial,
                    false,
                    false,
                )
            }),
            r matches Some(c) ==> valid_ref(self@, c.target),
    {
        if chars_of(self.initial.as_str()).len() == 0 || self.states.len() == 0 {
            return None;
        }
        plan_state_change(self.global_ref(), &self.states, self.current_state(), self.initial.as_str(), None, false)
    }

    /// The engine runs from now on; `false` when it already ran, in which
    /// case its pipeline is not started again.
    pub fn mark_running(&mut self) -> (started: bool)
        requires
            engine_wf(old(self)@),
        ensures
            started == (old(self)@.status != StateMachineEngineStatus::Running),
            final(self)@ == (EngineView { status: StateMachineEngineStatus::Running, ..old(self)@ }),
            engine_wf(final(self)@),
    {
        if self.status == StateMachineEngineStatus::Running {
            return false;
        }
        self.status = StateMachineEngineStatus::Running;
        true
    }

    /// Stop the engine.
    pub fn stop(&mut self)
        requires
            engine_wf(old(self)@),
        ensures
            final(self)@ == (EngineView { status: StateMachineEngineStatus::Stopped, ..old(self)@ }),
            engine_wf(final(self)@),
    {
        self.status = StateMachineEngineStatus::Stopped;
    }

    /// The host has entered `target`: it is the current state.
    pub fn enter_state(&mut self, target: StateRef)
        requires
            engine_wf(old(self)@),
            valid_ref(old(self)@, target),
        ensures
            final(self)@ == (EngineView { current: Some(target), ..old(self)@ }),
            engine_wf(final(self)@),
    {
        self.current = Some(target);
    }

    /// The player has started a tween towards `target`: the engine tweens,
    /// and enters `target` when the tween ends.
    pub fn begin_tween(&mut self, target: StateRef)
        requires
            engine_wf(old(self)@),
            valid_ref(old(self)@, target),
        ensures
            final(self)@ == (EngineView {
                status: StateMachineEngineStatus::Tweening,
                tween_target: Some(target),
                ..old(self)@
            }),
            engine_wf(final(self)@),
    {
        self.status = StateMachineEngineStatus::Tweening;
        self.tween_target = Some(target);
    }

    /// The tween has ended: a tweening engine runs again and the state it
    /// tweened to becomes the current one, which the host then enters
    /// (its entry actions run). Nothing happens when the engine does not
    /// tween.
    pub fn resume_from_tweening(&mut self) -> (r: Option<StateRef>)
        requires
            engine_wf(old(self)@),
        ensures
            old(self)@.status != StateMachineEngineStatus::Tweening ==> (r is None) && final(self)@ == old(self)@,
            old(self)@.status == StateMachineEngineStatus::Tweening ==> r == old(self)@.tween_target
                && final(self)@ == (match old(self)@.tween_target {
                    Some(t) => (EngineView {
                        status: StateMachineEngineStatus::Running,
                        current: Some(t),
                        tween_target: None,
                        ..old(self)@
                    }),
                    None => (EngineView { status: StateMachineEngineStatus::Running, ..old(self)@ }),
                }),
            engine_wf(final(self)@),
    {
        if self.status != StateMachineEngineStatus::Tweening {
            return None;
        }
        self.status = StateMachineEngineStatus::Running;
        match self.tween_target {
            Some(t) => {
                self.current = Some(t);
                self.tween_target = None;
                Some(t)
            },
            None => None,
        }
    }

    /// Set numeric input `key` to `value` (an `f32` bit pattern); its former
    /// value comes back. A reserved name, a running tween or an undeclared
    /// input give `None`; only the first two leave the engine unchanged,
    /// since a write from an action is noted either way. The host runs the
    /// pipeline afterwards when asked to.
    pub fn set_numeric_input(&mut self, key: &str, value: u32, called_from_action: bool) -> (r: Option<u32>)
        requires
            engine_wf(old(self)@),
        ensures
            engine_wf(final(self)@),
            final(self)@ == numeric_written(old(self)@, key@, value, called_from_action),
            r == (if !write_refused(old(self)@, key@) && old(self)@.inputs.numeric.contains_key(key@) {
                Some(old(self)@.inputs.numeric[key@].0)
            } else {
                None
            }),
    {
        if str_starts_with_char(key, '@') || self.status == StateMachineEngineStatus::Tweening {
            return None;
        }
        let r = self.inputs.set_numeric(key, value);
        if called_from_action {
            self.action_mutated_inputs = true;
        }
        r
    }

    /// Set boolean input `key` to `value` (see `set_numeric_input`).
    pub fn set_boolean_input(&mut self, key: &str, value: bool, called_from_action: bool) -> (r: Option<bool>)
        requires
            engine_wf(old(self)@),
        ensures
            engine_wf(final(self)@),
            final(self)@ == boolean_written(old(self)@, key@, value, called_from_action),
            r == (if !write_refused(old(self)@, key@) && old(self)@.inputs.boolean.contains_key(key@) {
                Some(old(self)@.inputs.boolean[key@].0)
            } else {
                None
            }),
    {
        if str_starts_with_char(key, '@') || self.status == StateMachineEngineStatus::Tweening {
            return None;
        }
        let r = self.inputs.set_boolean(key, value);
        if called_from_action {
            self.action_mutated_inputs = true;
        }
        r
    }

    /// Set string input `key` to `value` (see `set_numeric_input`).
    pub fn set_string_input(&mut self, key: &str, value: &str, called_from_action: bool) -> (r: Option<String>)
        requires
            engine_wf(old(self)@),
        ensures
            engine_wf(final(self)@),
            final(self)@ == string_written(old(self)@, key@, value@, called_from_action),
            r is Some == (!write_refused(old(self)@, key@) && old(self)@.inputs.string.contains_key(key@)),
            r matches Some(o) ==> o@ == old(self)@.inputs.string[key@].0,
    {
        if str_starts_with_char(key, '@') || self.status == StateMachineEngineStatus::Tweening {
            return None;
        }
        let r = self.inputs.set_string(key, value);
        if called_from_action {
            self.action_mutated_inputs = true;
        }
        r
    }

    /// Put input `key` back to its declared value (see `reset_inputs`).
    /// Only a running engine does so, and never for a reserved name.
    pub fn reset_input(&mut self, key: &str, called_from_action: bool)
        requires
            engine_wf(old(self)@),
        ensures
            engine_wf(final(self)@),
            final(self)@ == input_reset(old(self)@, key@, called_from_action),
    {
        if self.status != StateMachineEngineStatus::Running || str_starts_with_char(key, '@') {
            return;
        }
        let _ = self.inputs.reset(key);
        if called_from_action {
            self.action_mutated_inputs = true;
        }
    }

    /// Fire event `event`: it becomes the pending event when it is declared;
    /// else `FireEventError`, and nothing changes. The host runs the pipeline
    /// afterwards when asked to.
    pub fn fire(&mut self, event: &str) -> (r: Result<(), StateMachineEngineError>)
        requires
            engine_wf(old(self)@),
        ensures
            engine_wf(final(self)@),
            final(self)@ == event_fired(old(self)@, event@),
            r == (if old(self)@.inputs.event.contains(event@) {
                Ok::<(), StateMachineEngineError>(())
            } else {
                Err(StateMachineEngineError::FireEventError)
            }),
    {
        if self.inputs.get_event(event).is_some() {
            self.pending_event = Some(event.to_owned());
            return Ok(());
        }
        Err(StateMachineEngineError::FireEventError)
    }

    /// Apply what an action asked for, as an action does (see
    /// `effect_applied`): `true` when the engine did all of it, `false`
    /// when the effect is the host's to perform.
    pub fn apply_effect(&mut self, effect: &ActionEffect, called_from_action: bool) -> (done: bool)
        requires
            engine_wf(old(self)@),
        ensures
            engine_wf(final(self)@),
            final(self)@ == effect_applied(old(self)@, effect@, called_from_action),
            done == applied_by_engine(effect@),
    {
        match effect {
            ActionEffect::Nothing => true,
            ActionEffect::SetBoolean { input_name, value } => {
                let _ = self.set_boolean_input(input_name.as_str(), *value, called_from_action);
                true
            },
            ActionEffect::SetNumeric { input_name, value } => {
                let _ = self.set_numeric_input(input_name.as_str(), *value, called_from_action);
                true
            },
            ActionEffect::SetString { input_name, value } => {
                let _ = self.set_string_input(input_name.as_str(), value.as_str(), called_from_action);
                true
            },
            ActionEffect::Fire { input_name } => {
                let _ = self.fire(input_name.as_str());
                true
            },
            ActionEffect::Reset { input_name } => {
                self.reset_input(input_name.as_str(), called_from_action);
                true
            },
            _ => false,
        }
    }

    /// The pending event, if any.
    pub fn pending_event(&self) -> (e: Option<&str>)
        ensures
            match e {
                Some(x) => Some(x@),
                None => None,
            } == self@.pending_event,
    {
        self.event_ref()
    }

    /// The state a reference names.
    pub fn state(&self, r: StateRef) -> (s: &State)
        requires
            engine_wf(self@),
            valid_ref(self@, r),
        ensures
            *s == state_at(global_state(self@), self@.states, r),
    {
        match r {
            StateRef::Global => {
                let i = self.global.unwrap();
                &self.states[i]
            },
            StateRef::Listed(i) => &self.states[i],
        }
    }

    /// The global state, if any.
    fn global_ref(&self) -> (g: Option<&State>)
        requires
            engine_wf(self@),
        ensures
            owned(g) == global_state(self@),
    {
        match self.global {
            Some(i) => Some(&self.states[i]),
            None => None,
        }
    }

    /// The current state, if any.
    pub fn current_state(&self) -> (c: Option<&State>)
        requires
            engine_wf(self@),
        ensures
            owned(c) == current_state(self@),
    {
        match self.current {
            Some(r) => Some(self.state(r)),
            None => None,
        }
    }

    /// The current state's name; empty when there is none.
    pub fn current_state_name(&self) -> (n: String)
        requires
            engine_wf(self@),
        ensures
            n@ == current_name(self@),
    {
        match self.current_state() {
            Some(s) => s.name(),
            None => String::new(),
        }
    }

    /// The pending event, if any.
    fn event_ref(&self) -> (e: Option<&str>)
        ensures
            match e {
                Some(x) => Some(x@),
                None => None,
            } == self@.pending_event,
    {
        match &self.pending_event {
            Some(x) => Some(x.as_str()),
            None => None,
        }
    }

    /// The end of a pipeline (see `finished`).
    fn finish(&mut self) -> (r: Result<PipelineStep, StateMachineEngineError>)
        requires
            engine_wf(old(self)@),
        ensures
            (final(self)@, r) == finished(old(self)@),
            engine_wf(final(self)@),
    {
        self.pending_event = None;
        self.phase = PipelinePhase::Idle;
        Ok(PipelineStep::Done)
    }

    /// The current state's transitions (see `child_round`).
    fn child_round(&mut self) -> (r: Result<PipelineStep, StateMachineEngineError>)
        requires
            engine_wf(old(self)@),
            old(self)@.cycle_count == 0 || old(self)@.cycle_count < old(self)@.max_cycle_count,
        ensures
            (final(self)@, r) == child_round(old(self)@),
            r matches Ok(PipelineStep::Change(c)) ==> valid_ref(final(self)@, c.target),
            engine_wf(final(self)@),
    {
        let found: Option<Option<StateChange>> = match self.current_state() {
            None => None,
            Some(s) => {
                let ts = s.transitions();
                match evaluate_transitions(ts, &self.inputs, self.event_ref()) {
                    None => None,
                    Some(i) => {
                        let t = &ts[i];
                        let target = t.target_state().as_str();
                        let plan = plan_state_change(
                            self.global_ref(),
                            &self.states,
                            self.current_state(),
                            target,
                            Some(t),
                            false,
                        );
                        Some(plan)
                    },
                }
            },
        };
        match found {
            None => self.finish(),
            Some(plan) => {
                self.pending_event = None;
                match plan {
                    None => self.finish(),
                    Some(c) => {
                        self.phase = PipelinePhase::AfterChildChange;
                        Ok(PipelineStep::Change(c))
                    },
                }
            },
        }
    }

    /// The global state's transitions, then the current state's (see
    /// `global_round`).
    fn global_round(&mut self) -> (r: Result<PipelineStep, StateMachineEngineError>)
        requires
            engine_wf(old(self)@),
            old(self)@.cycle_count == 0 || old(self)@.cycle_count < old(self)@.max_cycle_count,
        ensures
            (final(self)@, r) == global_round(old(self)@),
            r matches Ok(PipelineStep::Change(c)) ==> valid_ref(final(self)@, c.target),
            engine_wf(final(self)@),
    {
        let found: Option<Option<StateChange>> = match self.global_ref() {
            None => None,
            Some(g) => {
                let ts = g.transitions();
                match evaluate_transitions(ts, &self.inputs, self.event_ref()) {
                    None => None,
                    Some(i) => {
                        let t = &ts[i];
                        let target = t.target_state().as_str();
                        if same_text(target, self.current_state_name().as_str()) {
                            Some(None)
                        } else {
                            Some(
                                plan_state_change(
                                    self.global_ref(),
                                    &self.states,
                                    self.current_state(),
                                    target,
                                    Some(t),
                                    true,
                                ),
                            )
                        }
                    },
                }
            },
        };
        match found {
            None => self.child_round(),
            Some(plan) => {
                self.pending_event = None;
                match plan {
                    None => self.child_round(),
                    Some(c) => {
                        self.phase = PipelinePhase::AfterGlobalChange;
                        Ok(PipelineStep::Change(c))
                    },
                }
            },
        }
    }

    /// One round of the pipeline (see `round`).
    fn round(&mut self, ignore_global: bool) -> (r: Result<PipelineStep, StateMachineEngineError>)
        requires
            engine_wf(old(self)@),
            old(self)@.cycle_count == 0 || old(self)@.cycle_count < old(self)@.max_cycle_count,
        ensures
            (final(self)@, r) == round(old(self)@, ignore_global),
            r matches Ok(PipelineStep::Change(c)) ==> valid_ref(final(self)@, c.target),
            engine_wf(final(self)@),
    {
        if detect_cycle(self.history.as_slice()) {
            let count: usize = self.cycle_count + 1;
            self.cycle_count = count;
            if count >= self.max_cycle_count {
                self.status = StateMachineEngineStatus::Stopped;
                self.phase = PipelinePhase::Idle;
                return Err(StateMachineEngineError::InfiniteLoopError);
            }
            self.history.clear();
            assert(self@.history =~= Seq::<Seq<char>>::empty());
        }
        if self.current.is_some() {
            let name = self.current_state_name();
            let ghost before = self.history@;
            self.history.push(name);
            assert(texts(self.history@) =~= texts(before).push(name@));
        }
        if ignore_global {
            self.child_round()
        } else {
            self.global_round()
        }
    }

    /// One step of the pipeline (see `pipeline_step_of`): the host performs
    /// the change it asks for, if any, and calls it again, until it is done
    /// or fails.
    pub fn pipeline_step(&mut self) -> (r: Result<PipelineStep, StateMachineEngineError>)
        requires
            engine_wf(old(self)@),
        ensures
            (final(self)@, r) == pipeline_step_of(old(self)@),
            engine_wf(final(self)@),
            r matches Ok(PipelineStep::Change(c)) ==> valid_ref(final(self)@, c.target),
    {
        match self.phase {
            PipelinePhase::Idle => {
                self.cycle_count = 0;
                if self.status == StateMachineEngineStatus::Tweening {
                    return Ok(PipelineStep::Done);
                }
                if self.status != StateMachineEngineStatus::Running || (self.current.is_none()
                    && self.global.is_none()) {
                    return Err(StateMachineEngineError::NotRunningError);
                }
                self.round(false)
            },
            PipelinePhase::AfterGlobalChange => {
                if self.status == StateMachineEngineStatus::Tweening {
                    return self.finish();
                }
                if self.action_mutated_inputs || self.pending_event.is_some() {
                    self.action_mutated_inputs = false;
                    self.round(false)
                } else {
                    self.child_round()
                }
            },
            PipelinePhase::AfterChildChange => {
                if self.status == StateMachineEngineStatus::Tweening {
                    return self.finish();
                }
                if self.action_mutated_inputs {
                    self.action_mutated_inputs = false;
                    self.round(false)
                } else if self.pending_event.is_some() {
                    self.round(false)
                } else {
                    self.round(true)
                }
            },
        }
    }
}

} // verus!
