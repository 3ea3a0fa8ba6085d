//! Engine states, and which of them wait on the elapsed time.
use vstd::prelude::*;

use crate::state_machine_engine::actions::{Action, StateMachineActionError};
use crate::state_machine_engine::state_machine::StringNumberBool;
use crate::state_machine_engine::transitions::guard::Guard;
use crate::state_machine_engine::transitions::{
    guard_seq, transition_guards, Transition, TransitionTrait,
};
use crate::text::{chars_eq, chars_of, contains_char, same_text, texts};

verus! {

/// A state could not be read.
#[derive(Debug, Clone, Copy, PartialEq, Eq, Structural)]
pub enum StatesError {
    ParsingError,
}

/// The direction a playback state plays its animation in.
#[derive(Debug, Clone, Copy, PartialEq, Eq, Structural)]
pub enum Mode {
    Forward,
    Reverse,
    Bounce,
    ReverseBounce,
}

/// A state: a playback state plays an animation with its settings; the global
/// state's transitions are looked at from every state. Numeric settings hold
/// IEEE-754 bit patterns of `f32` values.
#[derive(Debug, Clone)]
pub enum State {
    PlaybackState {
        name: String,
        transitions: Vec<Transition>,
        animation: String,
        looping: Option<bool>,
        loop_count: Option<u32>,
        is_final: Option<bool>,
        autoplay: Option<bool>,
        mode: Option<String>,
        speed: Option<u32>,
        segment: Option<String>,
        background_color: Option<u32>,
        entry_actions: Option<Vec<Action>>,
        exit_actions: Option<Vec<Action>>,
    },
    GlobalState {
        name: String,
        transitions: Vec<Transition>,
        animation: Option<String>,
        entry_actions: Option<Vec<Action>>,
        exit_actions: Option<Vec<Action>>,
    },
}

/// The mode named `name` in the definition format, if any.
pub open spec fn mode_named(name: Seq<char>) -> Option<Mode> {
    if name == "Forward"@ {
        Some(Mode::Forward)
    } else if name == "Reverse"@ {
        Some(Mode::Reverse)
    } else if name == "Bounce"@ {
        Some(Mode::Bounce)
    } else if name == "ReverseBounce"@ {
        Some(Mode::ReverseBounce)
    } else {
        None
    }
}

/// The mode a playback state declares: forward when it declares none, and a
/// parsing error for a name that is not a mode.
pub fn parse_mode(mode: &Option<String>) -> (r: Result<Mode, StateMachineActionError>)
    ensures
        r == match *mode {
            None => Ok(Mode::Forward),
            Some(m) => match mode_named(m@) {
                Some(parsed) => Ok(parsed),
                None => Err(StateMachineActionError::ParsingError),
            },
        },
{
    match mode {
        None => Ok(Mode::Forward),
        Some(m) => {
            if same_text(m.as_str(), "Forward") {
                Ok(Mode::Forward)
            } else if same_text(m.as_str(), "Reverse") {
                Ok(Mode::Reverse)
            } else if same_text(m.as_str(), "Bounce") {
                Ok(Mode::Bounce)
            } else if same_text(m.as_str(), "ReverseBounce") {
                Ok(Mode::ReverseBounce)
            } else {
                Err(StateMachineActionError::ParsingError)
            }
        },
    }
}

/// The bit pattern of the `f32` value `1.0`: the speed of a playback state
/// that declares none.
pub const DEFAULT_SPEED_BITS: u32 = 0x3f80_0000;

/// One thing entering a state asks of the player or the engine, in order.
/// Numbers are IEEE-754 bit patterns of `f32` values.
#[derive(Debug, Clone, PartialEq)]
pub enum EntryStep {
    SetMode(Mode),
    SetLoop(bool),
    SetLoopCount(u32),
    SetSpeed(u32),
    /// The background colour; the player's default colour when none.
    SetBackgroundColor(Option<u32>),
    ClearSegment,
    SetMarker(Option<String>),
    SetAutoplay(bool),
    /// Load this animation unless it is already the active one (a playback
    /// state also needs the player to render).
    LoadAnimation(String),
    /// Run the state's entry actions.
    RunEntryActions,
    /// Stop the engine: the state is final.
    Stop,
}

/// An entry step as a mathematical value.
pub ghost enum EntryStepView {
    SetMode(Mode),
    SetLoop(bool),
    SetLoopCount(u32),
    SetSpeed(u32),
    SetBackgroundColor(Option<u32>),
    ClearSegment,
    SetMarker(Option<Seq<char>>),
    SetAutoplay(bool),
    LoadAnimation(Seq<char>),
    RunEntryActions,
    Stop,
}

impl View for EntryStep {
    type V = EntryStepView;

    open spec fn view(&self) -> EntryStepView {
        match self {
            EntryStep::SetMode(m) => EntryStepView::SetMode(*m),
            EntryStep::SetLoop(b) => EntryStepView::SetLoop(*b),
            EntryStep::SetLoopCount(n) => EntryStepView::SetLoopCount(*n),
            EntryStep::SetSpeed(v) => EntryStepView::SetSpeed(*v),
            EntryStep::SetBackgroundColor(c) => EntryStepView::SetBackgroundColor(*c),
            EntryStep::ClearSegment => EntryStepView::ClearSegment,
            EntryStep::SetMarker(m) => EntryStepView::SetMarker(
                match m {
                    Some(t) => Some(t@),
                    None => None,
                },
            ),
            EntryStep::SetAutoplay(b) => EntryStepView::SetAutoplay(*b),
            EntryStep::LoadAnimation(a) => EntryStepView::LoadAnimation(a@),
            EntryStep::RunEntryActions => EntryStepView::RunEntryActions,
            EntryStep::Stop => EntryStepView::Stop,
        }
    }
}

/// What entering `s` asks for, in order, and whether it fails part way: a
/// playback state sets the mode (an unknown mode fails before anything),
/// looping (off by default), the loop count (0), the speed (1.0), the
/// background colour and no segment, then its marker (a NUL character in
/// it fails here), autoplay (off), then loads its animation when it names
/// one (a NUL character in it fails here), runs its entry actions, and stops
/// the engine when it is final. The global state loads its animation, if it
/// names one without a NUL character, and runs its entry actions.
pub open spec fn entry_steps_of(s: State) -> (Seq<EntryStepView>, Result<(), StateMachineActionError>) {
    match s {
        State::PlaybackState {
            animation,
            looping,
            loop_count,
            is_final,
            autoplay,
            mode,
            speed,
            segment,
            background_color,
            ..
        } => {
            let parsed = match mode {
                None => Some(Mode::Forward),
                Some(m) => mode_named(m@),
            };
            match parsed {
                None => (Seq::empty(), Err(StateMachineActionError::ParsingError)),
                Some(m) => {
                    let settings = seq![
                        EntryStepView::SetMode(m),
                        EntryStepView::SetLoop(looping == Some(true)),
                        EntryStepView::SetLoopCount(
                            match loop_count {
                                Some(n) => n,
                                None => 0,
                            },
                        ),
                        EntryStepView::SetSpeed(
                            match speed {
                                Some(v) => v,
                                None => DEFAULT_SPEED_BITS,
                            },
                        ),
                        EntryStepView::SetBackgroundColor(background_color),
                        EntryStepView::ClearSegment,
                    ];
                    if segment matches Some(t) && t@.contains('\0') {
                        (settings, Err(StateMachineActionError::ParsingError))
                    } else {
                        let marked = settings + seq![
                            EntryStepView::SetMarker(
                                match segment {
                                    Some(t) => Some(t@),
                                    None => None,
                                },
                            ),
                            EntryStepView::SetAutoplay(autoplay == Some(true)),
                        ];
                        if animation@.contains('\0') {
                            (marked, Err(StateMachineActionError::ParsingError))
                        } else {
                            (
                                marked + (if animation@.len() > 0 {
                                    seq![EntryStepView::LoadAnimation(animation@)]
                                } else {
                                    Seq::empty()
                                }) + seq![EntryStepView::RunEntryActions] + (if is_final == Some(true) {
                                    seq![EntryStepView::Stop]
                                } else {
                                    Seq::empty()
                                }),
                                Ok(()),
                            )
                        }
                    }
                },
            }
        },
        State::GlobalState { animation, .. } => match animation {
            Some(a) => if a@.contains('\0') {
                (Seq::empty(), Err(StateMachineActionError::ParsingError))
            } else {
                (seq![EntryStepView::LoadAnimation(a@), EntryStepView::RunEntryActions], Ok(()))
            },
            None => (seq![EntryStepView::RunEntryActions], Ok(())),
        },
    }
}

/// What entering `state` asks of the player and the engine (see
/// `entry_steps_of`): the steps to take in order, and whether entering fails
/// after them.
pub fn entry_steps(state: &State) -> (r: (Vec<EntryStep>, Result<(), StateMachineActionError>))
    ensures
        r.0@.map_values(|e: EntryStep| e@) == entry_steps_of(*state).0,
        r.1 == entry_steps_of(*state).1,
{
    let mut steps: Vec<EntryStep> = Vec::new();
    match state {
        State::PlaybackState {
            animation,
            looping,
            loop_count,
            is_final,
            autoplay,
            mode,
            speed,
            segment,
            background_color,
            ..
        } => {
            let m = match parse_mode(mode) {
                Ok(m) => m,
                Err(e) => {
                    assert(steps@.map_values(|e: EntryStep| e@) =~= Seq::<EntryStepView>::empty());
                    return (steps, Err(e));
                },
            };
            steps.push(EntryStep::SetMode(m));
            steps.push(EntryStep::SetLoop(
                match looping {
                    Some(true) => true,
                    _ => false,
                },
            ));
            steps.push(EntryStep::SetLoopCount(
                match loop_count {
                    Some(n) => *n,
                    None => 0,
                },
            ));
            steps.push(EntryStep::SetSpeed(
                match speed {
                    Some(v) => *v,
                    None => DEFAULT_SPEED_BITS,
                },
            ));
            steps.push(EntryStep::SetBackgroundColor(*background_color));
            steps.push(EntryStep::ClearSegment);
            let marker = match segment {
                Some(t) => {
                    if contains_char(&chars_of(t.as_str()), '\0') {
                        assert(steps@.map_values(|e: EntryStep| e@) =~= entry_steps_of(*state).0);
                        return (steps, Err(StateMachineActionError::ParsingError));
                    }
                    Some(t.clone())
                },
                None => None,
            };
            steps.push(EntryStep::SetMarker(marker));
            steps.push(EntryStep::SetAutoplay(
                match autoplay {
                    Some(true) => true,
                    _ => false,
                },
            ));
            let animation_chars = chars_of(animation.as_str());
            if contains_char(&animation_chars, '\0') {
                assert(steps@.map_values(|e: EntryStep| e@) =~= entry_steps_of(*state).0);
                return (steps, Err(StateMachineActionError::ParsingError));
            }
            if animation_chars.len() > 0 {
                steps.push(EntryStep::LoadAnimation(animation.clone()));
            }
            steps.push(EntryStep::RunEntryActions);
            match is_final {
                Some(true) => steps.push(EntryStep::Stop),
                _ => {},
            }
            assert(steps@.map_values(|e: EntryStep| e@) =~= entry_steps_of(*state).0);
            (steps, Ok(()))
        },
        State::GlobalState { animation, .. } => {
            match animation {
                Some(a) => {
                    if contains_char(&chars_of(a.as_str()), '\0') {
                        assert(steps@.map_values(|e: EntryStep| e@) =~= Seq::<EntryStepView>::empty());
                        return (steps, Err(StateMachineActionError::ParsingError));
                    }
                    steps.push(EntryStep::LoadAnimation(a.clone()));
                },
                None => {},
            }
            steps.push(EntryStep::RunEntryActions);
            assert(steps@.map_values(|e: EntryStep| e@) =~= entry_steps_of(*state).0);
            (steps, Ok(()))
        },
    }
}

/// The name of a state.
pub open spec fn state_name(s: State) -> Seq<char> {
    match s {
        State::PlaybackState { name, .. } => name@,
        State::GlobalState { name, .. } => name@,
    }
}

/// The transitions out of a state.
pub open spec fn state_transitions(s: State) -> Seq<Transition> {
    match s {
        State::PlaybackState { transitions, .. } => transitions@,
        State::GlobalState { transitions, .. } => transitions@,
    }
}

/// What a state answers without an engine at hand. Entering and leaving a
/// state drive the player, and are done where it lives.
pub trait StateTrait {
    fn animation(&self) -> &str;

    fn transitions(&self) -> &Vec<Transition>;

    fn entry_actions(&self) -> Option<&Vec<Action>>;

    fn exit_actions(&self) -> Option<&Vec<Action>>;

    fn name(&self) -> String;

    fn get_type(&self) -> String;
}

impl StateTrait for State {
    /// The animation of a playback state; empty for the global state.
    fn animation(&self) -> (a: &str)
        ensures
            a@ == match *self {
                State::PlaybackState { animation, .. } => animation@,
                State::GlobalState { .. } => Seq::<char>::empty(),
            },
    {
        match self {
            State::PlaybackState { animation, .. } => animation.as_str(),
            State::GlobalState { .. } => {
                proof {
                    reveal_strlit("");
                }
                ""
            },
        }
    }

    /// The transitions out of the state.
    fn transitions(&self) -> (t: &Vec<Transition>)
        ensures
            t@ == state_transitions(*self),
    {
        match self {
            State::PlaybackState { transitions, .. } => transitions,
            State::GlobalState { transitions, .. } => transitions,
        }
    }

    /// The actions run on entering the state.
    fn entry_actions(&self) -> (a: Option<&Vec<Action>>)
        ensures
            match *self {
                State::PlaybackState { entry_actions, .. } => a == match entry_actions {
                    Some(v) => Some(&v),
                    None => None,
                },
                State::GlobalState { entry_actions, .. } => a == match entry_actions {
                    Some(v) => Some(&v),
                    None => None,
                },
            },
    {
        match self {
            State::PlaybackState { entry_actions, .. } => entry_actions.as_ref(),
            State::GlobalState { entry_actions, .. } => entry_actions.as_ref(),
        }
    }

    /// The actions run on leaving the state.
    fn exit_actions(&self) -> (a: Option<&Vec<Action>>)
        ensures
            match *self {
                State::PlaybackState { exit_actions, .. } => a == match exit_actions {
                    Some(v) => Some(&v),
                    None => None,
                },
                State::GlobalState { exit_actions, .. } => a == match exit_actions {
                    Some(v) => Some(&v),
                    None => None,
                },
            },
    {
        match self {
            State::PlaybackState { exit_actions, .. } => exit_actions.as_ref(),
            State::GlobalState { exit_actions, .. } => exit_actions.as_ref(),
        }
    }

    /// The state's name.
    fn name(&self) -> (n: String)
        ensures
            n@ == state_name(*self),
    {
        match self {
            State::PlaybackState { name, .. } => name.clone(),
            State::GlobalState { name, .. } => name.clone(),
        }
    }

    /// The kind of state, as the definition format names it.
    fn get_type(&self) -> (t: String)
        ensures
            t@ == match *self {
                State::PlaybackState { .. } => "PlaybackState"@,
                State::GlobalState { .. } => "GlobalState"@,
            },
    {
        match self {
            State::PlaybackState { .. } => "PlaybackState".to_owned(),
            State::GlobalState { .. } => "GlobalState".to_owned(),
        }
    }
}

/// The built-in input that holds the time spent in the current state.
pub open spec fn elapsed_time_name() -> Seq<char> {
    "@elapsedTime"@
}

/// Whether a guard waits on the elapsed time: a numeric guard on the
/// elapsed-time input, or compared with it.
pub open spec fn guard_uses_elapsed_time(g: Guard) -> bool {
    match g {
        Guard::Numeric { input_name, compare_to, .. } => input_name@ == elapsed_time_name()
            || (compare_to matches StringNumberBool::String(s) && s@ == elapsed_time_name()),
        _ => false,
    }
}

/// Whether some guard of some transition in `ts` waits on the elapsed time.
pub open spec fn transitions_use_elapsed_time(ts: Seq<Transition>) -> bool {
    exists|i: int, j: int|
        0 <= i < ts.len() && 0 <= j < guard_seq(ts[i]).len() && guard_uses_elapsed_time(
            #[trigger] guard_seq(ts[i])[j],
        )
}

/// Whether `guard` waits on the elapsed time.
fn guard_references_elapsed_time(guard: &Guard) -> (b: bool)
    ensures
        b == guard_uses_elapsed_time(*guard),
{
    match guard {
        Guard::Numeric { input_name, compare_to, .. } => {
            if same_text(input_name.as_str(), "@elapsedTime") {
                return true;
            }
            match compare_to {
                StringNumberBool::String(s) => same_text(s.as_str(), "@elapsedTime"),
                _ => false,
            }
        },
        _ => false,
    }
}

/// Whether some guard of `transitions` waits on the elapsed time.
pub fn guards_reference_elapsed_time(transitions: &[Transition]) -> (b: bool)
    ensures
        b == transitions_use_elapsed_time(transitions@),
{
    for i in 0..transitions.len()
        invariant
            forall|k: int, j: int|
                0 <= k < i && 0 <= j < guard_seq(transitions@[k]).len() ==> !guard_uses_elapsed_time(
                    #[trigger] guard_seq(transitions@[k])[j],
                ),
    {
        if let Some(guards) = transitions[i].guards() {
            for j in 0..guards.len()
                invariant
                    i < transitions@.len(),
                    transition_guards(transitions@[i as int]) == Some(*guards),
                    forall|k: int| 0 <= k < j ==> !guard_uses_elapsed_time(#[trigger] guards@[k]),
            {
                if guard_references_elapsed_time(&guards[j]) {
                    assert(guard_seq(transitions@[i as int])[j as int] == guards@[j as int]);
                    return true;
                }
            }
            assert(guard_seq(transitions@[i as int]) == guards@);
        } else {
            assert(guard_seq(transitions@[i as int]).len() == 0);
        }
    }
    false
}

/// The names of the playback states whose transitions wait on the elapsed
/// time, in order; and whether the global state's do (the global state is
/// looked at on every tick, whichever state is current).
pub fn compute_elapsed_time_states(states: &Vec<State>) -> (r: (Vec<String>, bool))
    ensures
        r.1 == exists|i: int|
            0 <= i < states@.len() && #[trigger] states@[i] is GlobalState
                && transitions_use_elapsed_time(state_transitions(states@[i])),
        forall|n: Seq<char>| #[trigger] texts(r.0@).contains(n) <==> exists|i: int|
            0 <= i < states@.len() && #[trigger] states@[i] is PlaybackState
                && transitions_use_elapsed_time(state_transitions(states@[i])) && state_name(
                states@[i],
            ) == n,
{
    let mut names: Vec<String> = Vec::new();
    let mut in_global = false;
    for i in 0..states.len()
        invariant
            in_global == exists|k: int|
                0 <= k < i && #[trigger] states@[k] is GlobalState && transitions_use_elapsed_time(
                    state_transitions(states@[k]),
                ),
            forall|n: Seq<char>| #[trigger] texts(names@).contains(n) <==> exists|k: int|
                0 <= k < i && #[trigger] states@[k] is PlaybackState
                    && transitions_use_elapsed_time(state_transitions(states@[k])) && state_name(
                    states@[k],
                ) == n,
    {
        let state = &states[i];
        if guards_reference_elapsed_time(state.transitions().as_slice()) {
            match state {
                State::GlobalState { .. } => {
                    in_global = true;
                },
                State::PlaybackState { .. } => {
                    let ghost old_names = texts(names@);
                    names.push(state.name());
                    proof {
                        let new_names = texts(names@);
                        assert(new_names == old_names.push(state_name(states@[i as int])));
                        assert forall|n: Seq<char>| #[trigger] new_names.contains(n) <==> (
                        old_names.contains(n) || n == state_name(states@[i as int])) by {
                            if new_names.contains(n) {
                                let k = choose|k: int| 0 <= k < new_names.len() && new_names[k] == n;
                                if k < old_names.len() {
                                    assert(old_names[k] == n);
                                }
                            }
                            if old_names.contains(n) {
                                let k = choose|k: int| 0 <= k < old_names.len() && old_names[k] == n;
                                assert(new_names[k] == n);
                            }
                            if n == state_name(states@[i as int]) {
                                assert(new_names[old_names.len() as int] == n);
                            }
                        }
                    }
                },
            }
        }
    }
    (names, in_global)
}

} // verus!
