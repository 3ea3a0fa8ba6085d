use dotlottie::state_machine_engine::actions::{all_guards_satisfied, Action, ActionTrait, StateMachineActionError};
use dotlottie::state_machine_engine::{
    detect_cycle, evaluate_transitions, find_state, plan_state_change, StateChange, StateChangeNext, StateRef,
};
use dotlottie::state_machine_engine::inputs::{Input, InputManager};
use dotlottie::state_machine_engine::interactions::{
    framework_setup, listened_layers, DragTween, DropZone, Interaction, InteractionTrait,
};
use dotlottie::state_machine_engine::security::{
    check_guards_for_existing_events, check_guards_for_existing_inputs, state_machine_state_check_pipeline,
    StateMachineEngineSecurityError,
};
use dotlottie::state_machine_engine::state_machine::{StringBool, StringNumber, StringNumberBool};
use dotlottie::state_machine_engine::state_slots::{StateSlot, StateSlotType, StateSlotValue};
use dotlottie::state_machine_engine::states::{
    compute_elapsed_time_states, entry_steps, guards_reference_elapsed_time, parse_mode, EntryStep, Mode, State,
    StateTrait,
};
use dotlottie::state_machine_engine::transitions::guard::{
    Guard, GuardTrait, TransitionGuardConditionType as C,
};
use dotlottie::state_machine_engine::transitions::{Transition, TransitionTrait};
use dotlottie::string::{DotString, DotStringInterner};

fn b(x: f32) -> u32 {
    x.to_bits()
}

fn inputs() -> InputManager {
    let mut m = InputManager::new();
    m.set_initial_numeric("n", b(5.0));
    m.set_initial_numeric("m", b(2.0));
    m.set_initial_boolean("flag", true);
    m.set_initial_string("s", "x");
    m.set_initial_string("t", "y");
    m
}

#[test]
fn engine_numeric_guard_needs_dollar_reference_or_number() {
    let m = inputs();
    let g = Guard::Numeric {
        input_name: "n".to_string(),
        condition_type: C::GreaterThan,
        compare_to: StringNumberBool::String("$m".to_string()),
    };
    assert!(g.numeric_input_is_satisfied(&m));
    let g = Guard::Numeric {
        input_name: "n".to_string(),
        condition_type: C::GreaterThan,
        compare_to: StringNumberBool::String("m".to_string()),
    };
    assert!(!g.numeric_input_is_satisfied(&m));
    let g = Guard::Numeric {
        input_name: "n".to_string(),
        condition_type: C::LessThanOrEqual,
        compare_to: StringNumberBool::F32(b(5.0)),
    };
    assert!(g.numeric_input_is_satisfied(&m));
    // A numeric method asked about another kind of guard says no.
    assert!(!Guard::Event { input_name: "e".to_string() }.numeric_input_is_satisfied(&m));
}

#[test]
fn engine_string_boolean_and_event_guards() {
    let m = inputs();
    let g = Guard::String {
        input_name: "s".to_string(),
        condition_type: C::NotEqual,
        compare_to: StringNumberBool::String("$t".to_string()),
    };
    assert!(g.string_input_is_satisfied(&m));
    let g = Guard::String {
        input_name: "s".to_string(),
        condition_type: C::Equal,
        compare_to: StringNumberBool::F32(b(1.0)),
    };
    assert!(!g.string_input_is_satisfied(&m));
    let g = Guard::Boolean {
        input_name: "flag".to_string(),
        condition_type: C::Equal,
        compare_to: StringBool::Bool(true),
    };
    assert!(g.boolean_input_is_satisfied(&m));
    assert!(!g.string_input_is_satisfied(&m));
    let g = Guard::Event { input_name: "click".to_string() };
    assert!(g.event_input_is_satisfied("click"));
    assert!(!g.event_input_is_satisfied("tap"));
}

#[test]
fn actions_run_only_when_all_guards_pass() {
    let m = inputs();
    assert!(all_guards_satisfied(&None, &m, None));
    let guards = Some(vec![
        Guard::Boolean {
            input_name: "flag".to_string(),
            condition_type: C::Equal,
            compare_to: StringBool::Bool(true),
        },
        Guard::Event { input_name: "go".to_string() },
    ]);
    assert!(all_guards_satisfied(&guards, &m, Some("go")));
    assert!(!all_guards_satisfied(&guards, &m, Some("stop")));
    // An event guard without a pending event never passes.
    assert!(!all_guards_satisfied(&guards, &m, None));
    let action = Action::Toggle { input_name: "flag".to_string(), guards: guards.clone() };
    assert_eq!(action.guards().as_ref().map(|g| g.len()), Some(2));
    let action = Action::FireCustomEvent { value: "x".to_string(), guards: None };
    assert!(action.guards().is_none());
}

#[test]
fn modes_parse_or_fail() {
    assert_eq!(parse_mode(&None), Ok(Mode::Forward));
    assert_eq!(parse_mode(&Some("Reverse".to_string())), Ok(Mode::Reverse));
    assert_eq!(parse_mode(&Some("Bounce".to_string())), Ok(Mode::Bounce));
    assert_eq!(parse_mode(&Some("ReverseBounce".to_string())), Ok(Mode::ReverseBounce));
    assert_eq!(parse_mode(&Some("Forward".to_string())), Ok(Mode::Forward));
    assert_eq!(
        parse_mode(&Some("sideways".to_string())),
        Err(StateMachineActionError::ParsingError)
    );
}

fn numeric_guard(input: &str, compare_to: StringNumberBool) -> Guard {
    Guard::Numeric { input_name: input.to_string(), condition_type: C::GreaterThan, compare_to }
}

fn plain(to: &str, guards: Option<Vec<Guard>>) -> Transition {
    Transition::Transition { to_state: DotString::new(to), guards }
}

fn playback(name: &str, transitions: Vec<Transition>) -> State {
    State::PlaybackState {
        name: name.to_string(),
        transitions,
        animation: "anim".to_string(),
        looping: None,
        loop_count: None,
        is_final: None,
        autoplay: None,
        mode: None,
        speed: None,
        segment: None,
        background_color: None,
        entry_actions: None,
        exit_actions: None,
    }
}

fn global(name: &str, transitions: Vec<Transition>) -> State {
    State::GlobalState {
        name: name.to_string(),
        transitions,
        animation: None,
        entry_actions: None,
        exit_actions: None,
    }
}

#[test]
fn elapsed_time_references_are_found() {
    let on_input = plain("a", Some(vec![numeric_guard("@elapsedTime", StringNumberBool::F32(b(1.0)))]));
    let on_compare = plain(
        "a",
        Some(vec![numeric_guard("n", StringNumberBool::String("@elapsedTime".to_string()))]),
    );
    let unrelated = plain("a", Some(vec![numeric_guard("n", StringNumberBool::F32(b(1.0)))]));
    assert!(guards_reference_elapsed_time(&[on_input.clone()]));
    assert!(guards_reference_elapsed_time(&[unrelated.clone(), on_compare.clone()]));
    assert!(!guards_reference_elapsed_time(&[unrelated.clone(), plain("b", None)]));
    assert!(!guards_reference_elapsed_time(&[]));

    let states = vec![
        playback("a", vec![on_input.clone()]),
        playback("b", vec![unrelated.clone()]),
        playback("c", vec![on_compare.clone()]),
        global("g", vec![unrelated.clone()]),
    ];
    let (names, in_global) = compute_elapsed_time_states(&states);
    assert_eq!(names, vec!["a".to_string(), "c".to_string()]);
    assert!(!in_global);
    let states = vec![global("g", vec![on_compare])];
    let (names, in_global) = compute_elapsed_time_states(&states);
    assert!(names.is_empty());
    assert!(in_global);
}

#[test]
fn engine_state_and_transition_accessors() {
    let t = Transition::Tweened {
        to_state: DotString::new("b"),
        guards: Some(vec![Guard::Event { input_name: "go".to_string() }]),
        duration: b(0.5),
        easing: [b(0.4), 0, b(0.2), b(1.0)],
    };
    assert_eq!(t.target_state().as_str(), "b");
    assert!(t.transitions_contain_event());
    assert_eq!(t.easing(), [b(0.4), 0, b(0.2), b(1.0)]);
    assert_eq!(plain("a", None).easing(), [0, 0, 0, 0]);
    assert!(!plain("a", None).transitions_contain_event());
    let s = playback("p", vec![t]);
    assert_eq!(s.name(), "p");
    assert_eq!(s.animation(), "anim");
    assert_eq!(s.get_type(), "PlaybackState");
    assert!(s.entry_actions().is_none());
    let g = global("g", vec![]);
    assert_eq!(g.animation(), "");
    assert_eq!(g.get_type(), "GlobalState");
}

fn slot(slot_type: StateSlotType, value: StateSlotValue) -> StateSlot {
    StateSlot { slot_id: DotString::new("slot"), slot_type, value }
}

#[test]
fn state_slots_resolve_against_numeric_inputs() {
    let m = inputs();
    let s = slot(StateSlotType::Scalar, StateSlotValue::Single(StringNumber::String("$n".to_string())));
    assert_eq!(s.resolve(&m), Some(vec![b(5.0)]));
    assert_eq!(s.referenced_inputs(), vec!["n".to_string()]);
    let s = slot(
        StateSlotType::Vector,
        StateSlotValue::Multi(vec![StringNumber::F32(b(1.0)), StringNumber::String("$m".to_string())]),
    );
    assert_eq!(s.resolve(&m), Some(vec![b(1.0), b(2.0)]));
    // Wrong arity, unknown input, a built-in, or a bare name resolve to nothing.
    let s = slot(StateSlotType::Vector, StateSlotValue::Single(StringNumber::F32(b(1.0))));
    assert_eq!(s.resolve(&m), None);
    let s = slot(StateSlotType::Scalar, StateSlotValue::Single(StringNumber::String("$zz".to_string())));
    assert_eq!(s.resolve(&m), None);
    let s = slot(
        StateSlotType::Scalar,
        StateSlotValue::Single(StringNumber::String("$@elapsedTime".to_string())),
    );
    assert_eq!(s.resolve(&m), None);
    let s = slot(StateSlotType::Scalar, StateSlotValue::Single(StringNumber::String("n".to_string())));
    assert_eq!(s.resolve(&m), None);
    assert!(s.referenced_inputs().is_empty());
    // A colour drops its alpha.
    let s = slot(
        StateSlotType::Color,
        StateSlotValue::Multi(vec![
            StringNumber::F32(b(0.1)),
            StringNumber::F32(b(0.2)),
            StringNumber::String("$n".to_string()),
            StringNumber::F32(b(0.5)),
        ]),
    );
    assert_eq!(s.resolve(&m), Some(vec![b(0.1), b(0.2), b(5.0)]));
    let s = slot(
        StateSlotType::Color,
        StateSlotValue::Multi(vec![StringNumber::F32(0), StringNumber::F32(0)]),
    );
    assert_eq!(s.resolve(&m), None);
}

#[test]
fn event_guards_must_name_declared_events() {
    let inputs = Some(vec![
        Input::Event { name: "go".to_string() },
        Input::Numeric { name: "stop".to_string(), value: 0 },
    ]);
    let declared = plain("a", Some(vec![Guard::Event { input_name: "go".to_string() }]));
    assert_eq!(check_guards_for_existing_events(&inputs, &declared), Ok(()));
    // A numeric input of that name is no event.
    let wrong_kind = plain("a", Some(vec![Guard::Event { input_name: "stop".to_string() }]));
    assert_eq!(
        check_guards_for_existing_events(&inputs, &wrong_kind),
        Err(StateMachineEngineSecurityError::SecurityCheckErrorInputCompareToIsWrong)
    );
    assert_eq!(
        check_guards_for_existing_events(&None, &declared),
        Err(StateMachineEngineSecurityError::SecurityCheckErrorInputCompareToIsWrong)
    );
    assert_eq!(check_guards_for_existing_events(&None, &plain("a", None)), Ok(()));
    let numeric_only = plain("a", Some(vec![numeric_guard("n", StringNumberBool::F32(0))]));
    assert_eq!(check_guards_for_existing_events(&None, &numeric_only), Ok(()));
}

#[test]
fn engine_guard_references_must_name_declared_inputs() {
    let inputs = Some(vec![
        Input::Numeric { name: "n".to_string(), value: b(1.0) },
        Input::Boolean { name: "on".to_string(), value: false },
        Input::String { name: "s".to_string(), value: "x".to_string() },
    ]);
    let wrong = Err(StateMachineEngineSecurityError::SecurityCheckErrorInputCompareToIsWrong);
    let numeric = |to: &str| {
        plain("a", Some(vec![numeric_guard("n", StringNumberBool::String(to.to_string()))]))
    };
    assert_eq!(check_guards_for_existing_inputs(&inputs, &numeric("$n")), Ok(()));
    assert_eq!(check_guards_for_existing_inputs(&inputs, &numeric("n")), Ok(()));
    assert_eq!(check_guards_for_existing_inputs(&inputs, &numeric("$$n")), Ok(()));
    assert_eq!(check_guards_for_existing_inputs(&inputs, &numeric("$on")), wrong);
    assert_eq!(check_guards_for_existing_inputs(&inputs, &numeric("@elapsedTime")), Ok(()));
    assert_eq!(check_guards_for_existing_inputs(&None, &numeric("@elapsedTime")), Ok(()));
    assert_eq!(check_guards_for_existing_inputs(&None, &numeric("$n")), wrong);

    let boolean = |to: StringBool| {
        plain(
            "a",
            Some(vec![Guard::Boolean {
                input_name: "on".to_string(),
                condition_type: C::Equal,
                compare_to: to,
            }]),
        )
    };
    assert_eq!(check_guards_for_existing_inputs(&inputs, &boolean(StringBool::String("$on".to_string()))), Ok(()));
    assert_eq!(check_guards_for_existing_inputs(&inputs, &boolean(StringBool::String("$n".to_string()))), wrong);
    assert_eq!(check_guards_for_existing_inputs(&None, &boolean(StringBool::Bool(true))), Ok(()));

    let string = |to: &str| {
        plain(
            "a",
            Some(vec![Guard::String {
                input_name: "s".to_string(),
                condition_type: C::Equal,
                compare_to: StringNumberBool::String(to.to_string()),
            }]),
        )
    };
    assert_eq!(check_guards_for_existing_inputs(&inputs, &string("$s")), Ok(()));
    assert_eq!(check_guards_for_existing_inputs(&inputs, &string("$t")), wrong);
    // Without a leading `$` the value is a literal.
    assert_eq!(check_guards_for_existing_inputs(&None, &string("t")), Ok(()));

    let event = plain("a", Some(vec![Guard::Event { input_name: "missing".to_string() }]));
    assert_eq!(check_guards_for_existing_inputs(&None, &event), Ok(()));
    // The first failing guard decides, after passing ones.
    let mixed = plain(
        "a",
        Some(vec![
            numeric_guard("n", StringNumberBool::String("$n".to_string())),
            numeric_guard("n", StringNumberBool::String("$x".to_string())),
        ]),
    );
    assert_eq!(check_guards_for_existing_inputs(&inputs, &mixed), wrong);
}

fn with_entry(state: State, actions: Vec<Action>) -> State {
    match state {
        State::PlaybackState {
            name, transitions, animation, looping, loop_count, is_final, autoplay, mode, speed,
            segment, background_color, exit_actions, ..
        } => State::PlaybackState {
            name, transitions, animation, looping, loop_count, is_final, autoplay, mode, speed,
            segment, background_color, entry_actions: Some(actions), exit_actions,
        },
        State::GlobalState { name, transitions, animation, exit_actions, .. } => {
            State::GlobalState { name, transitions, animation, entry_actions: Some(actions), exit_actions }
        }
    }
}

#[test]
fn engine_pipeline_reports_the_first_problem() {
    type E = StateMachineEngineSecurityError;
    let inputs = Some(vec![
        Input::Numeric { name: "n".to_string(), value: b(1.0) },
        Input::Event { name: "go".to_string() },
    ]);
    let none: Option<Vec<Interaction>> = None;
    let good = vec![
        playback("a", vec![plain("b", None), plain("a", Some(vec![Guard::Event { input_name: "go".to_string() }]))]),
        playback("b", vec![plain("a", Some(vec![numeric_guard("n", StringNumberBool::String("$n".to_string()))]))]),
        global("g", vec![plain("a", None)]),
    ];
    assert_eq!(state_machine_state_check_pipeline(&good, &inputs, &none), Ok(()));
    assert_eq!(state_machine_state_check_pipeline(&vec![], &None, &none), Ok(()));

    // The elapsed-time input cannot be declared, whatever else is wrong.
    let reserved = Some(vec![Input::Boolean { name: "@elapsedTime".to_string(), value: true }]);
    let dup = vec![playback("a", vec![]), playback("a", vec![])];
    assert_eq!(state_machine_state_check_pipeline(&dup, &reserved, &none), Err(E::ReservedInputName));

    assert_eq!(state_machine_state_check_pipeline(&dup, &inputs, &none), Err(E::SecurityCheckErrorDuplicateStateName));
    let two_globals = vec![global("g", vec![]), global("h", vec![])];
    assert_eq!(state_machine_state_check_pipeline(&two_globals, &inputs, &none), Err(E::MultipleGlobalStates));
    let guardless = vec![playback("a", vec![plain("b", None), plain("c", None)])];
    assert_eq!(
        state_machine_state_check_pipeline(&guardless, &inputs, &none),
        Err(E::SecurityCheckErrorMultipleGuardlessTransitions)
    );
    let empty_lists = vec![playback("a", vec![plain("b", Some(vec![])), plain("c", Some(vec![]))])];
    assert_eq!(
        state_machine_state_check_pipeline(&empty_lists, &inputs, &none),
        Err(E::SecurityCheckErrorMultipleGuardlessTransitions)
    );
    let undeclared_event = vec![playback("a", vec![plain("b", Some(vec![Guard::Event { input_name: "stop".to_string() }]))])];
    assert_eq!(
        state_machine_state_check_pipeline(&undeclared_event, &inputs, &none),
        Err(E::SecurityCheckErrorInputCompareToIsWrong)
    );
    // A bad reference is found before a second guardless transition.
    let both = vec![playback(
        "a",
        vec![
            plain("b", None),
            plain("c", None),
            plain("d", Some(vec![numeric_guard("n", StringNumberBool::String("$m".to_string()))])),
        ],
    )];
    assert_eq!(
        state_machine_state_check_pipeline(&both, &inputs, &none),
        Err(E::SecurityCheckErrorInputCompareToIsWrong)
    );

    // Actions may not write to the elapsed-time input.
    let write = Action::SetNumeric {
        input_name: "@elapsedTime".to_string(),
        value: StringNumber::F32(0),
        guards: None,
    };
    let writer = vec![playback("z", vec![]), with_entry(playback("a", vec![]), vec![write.clone()]), playback("a", vec![])];
    assert_eq!(state_machine_state_check_pipeline(&writer, &inputs, &none), Err(E::ReservedInputWriteFromAction));
    // The states come first, then the interactions.
    assert_eq!(state_machine_state_check_pipeline(&good, &inputs, &up_with(vec![write.clone()])), Err(E::ReservedInputWriteFromAction));
    assert_eq!(
        state_machine_state_check_pipeline(&dup, &inputs, &up_with(vec![write.clone()])),
        Err(E::SecurityCheckErrorDuplicateStateName)
    );
    let reset = Action::Reset { input_name: "@elapsedTime".to_string(), guards: None };
    assert_eq!(state_machine_state_check_pipeline(&good, &inputs, &up_with(vec![reset])), Err(E::ReservedInputWriteFromAction));
    let other = Action::Toggle { input_name: "flag".to_string(), guards: None };
    assert_eq!(state_machine_state_check_pipeline(&good, &inputs, &up_with(vec![other])), Ok(()));
}

#[test]
fn the_first_firing_transition_wins_then_the_last_guardless_one() {
    let m = inputs();
    let gt = |rhs: &str| numeric_guard("n", StringNumberBool::String(rhs.to_string()));
    let holds = plain("b", Some(vec![gt("$m")]));
    let fails = plain("c", Some(vec![numeric_guard("m", StringNumberBool::String("$n".to_string()))]));
    let on_go = plain("d", Some(vec![Guard::Event { input_name: "go".to_string() }]));

    // A guarded transition that fires beats a guardless one before it.
    assert_eq!(evaluate_transitions(&vec![plain("a", None), holds.clone()], &m, None), Some(1));
    // When nothing fires, the last guardless transition is taken.
    assert_eq!(evaluate_transitions(&vec![plain("a", None), fails.clone(), plain("e", Some(vec![]))], &m, None), Some(2));
    assert_eq!(evaluate_transitions(&vec![fails.clone()], &m, None), None);
    assert_eq!(evaluate_transitions(&vec![], &m, None), None);
    // The first of two firing transitions is taken.
    assert_eq!(evaluate_transitions(&vec![fails.clone(), holds.clone(), holds.clone()], &m, None), Some(1));

    // Event transitions are looked at only while an event is pending, and the
    // others only while none is.
    assert_eq!(evaluate_transitions(&vec![on_go.clone()], &m, Some("go")), Some(0));
    assert_eq!(evaluate_transitions(&vec![on_go.clone()], &m, Some("stop")), None);
    assert_eq!(evaluate_transitions(&vec![on_go.clone()], &m, None), None);
    assert_eq!(evaluate_transitions(&vec![holds.clone(), on_go.clone()], &m, Some("go")), Some(1));
    assert_eq!(evaluate_transitions(&vec![holds.clone(), plain("a", None)], &m, Some("go")), Some(1));
    let both = plain("f", Some(vec![Guard::Event { input_name: "go".to_string() }, gt("$m")]));
    assert_eq!(evaluate_transitions(&vec![both.clone()], &m, Some("go")), Some(0));
    let both_failing = plain("f", Some(vec![Guard::Event { input_name: "go".to_string() }, fails_guard()]));
    assert_eq!(evaluate_transitions(&vec![both_failing], &m, Some("go")), None);
}

fn fails_guard() -> Guard {
    numeric_guard("m", StringNumberBool::String("$n".to_string()))
}

#[test]
fn a_cycle_is_a_state_seen_again() {
    let h = |names: &[&str]| names.iter().map(|n| n.to_string()).collect::<Vec<_>>();
    assert!(!detect_cycle(&h(&[])));
    assert!(!detect_cycle(&h(&["a"])));
    assert!(!detect_cycle(&h(&["a", "b", "c"])));
    assert!(detect_cycle(&h(&["a", "b", "a"])));
    assert!(detect_cycle(&h(&["b", "b"])));
    // Only the last state counts.
    assert!(!detect_cycle(&h(&["a", "a", "b"])));
}

fn up_with(actions: Vec<Action>) -> Option<Vec<Interaction>> {
    Some(vec![Interaction::PointerUp { layer_name: None, actions }])
}

fn drag(layer: &str, on_grab: Option<Vec<Action>>) -> Interaction {
    Interaction::DragAndDrop {
        layer_name: DotString::new(layer),
        slot_id: Some(DotString::new("pos")),
        path_layer_name: None,
        progress_input: None,
        dock_fallback: None,
        state_name: Some(DotString::new("playing")),
        boundary_layer_name: None,
        ghost_drag: None,
        tween: Some(DragTween { duration: b(0.25), easing: [0, 0, b(1.0), b(1.0)] }),
        on_grab,
        on_drag: None,
        on_drop: None,
        drop_zones: vec![DropZone {
            layer_name: DotString::new("zone"),
            snap: None,
            lock: Some(true),
            track: None,
            actions: None,
        }],
    }
}

#[test]
fn drag_hooks_are_not_generic_actions() {
    let write = Action::SetNumeric {
        input_name: "@elapsedTime".to_string(),
        value: StringNumber::F32(0),
        guards: None,
    };
    let d = drag("box", Some(vec![write.clone()]));
    assert!(d.get_actions().is_empty());
    assert_eq!(d.get_layer_name().map(|n| n.as_str()), Some("box"));
    assert_eq!(d.get_state_name(), Some("playing".to_string()));
    assert_eq!(d.interaction_type_name(), "DragAndDrop");
    // The pipeline only looks at the generic actions.
    let inputs = None;
    assert_eq!(state_machine_state_check_pipeline(&vec![], &inputs, &Some(vec![d])), Ok(()));
    let c = Interaction::OnComplete { state_name: DotString::new("a"), actions: vec![write] };
    assert_eq!(c.get_actions().len(), 1);
    assert_eq!(c.get_layer_name(), None);
    assert_eq!(c.get_state_name(), Some("a".to_string()));
}

#[test]
fn the_host_is_asked_for_each_needed_event_type_once_in_order() {
    assert!(framework_setup(&vec![]).is_empty());
    let enter = Interaction::PointerEnter { layer_name: Some(DotString::new("a")), actions: vec![] };
    let exit = Interaction::PointerExit { layer_name: None, actions: vec![] };
    let click = Interaction::Click { layer_name: None, actions: vec![] };
    let done = Interaction::OnLoopComplete { state_name: DotString::new("s"), actions: vec![] };
    assert_eq!(framework_setup(&vec![enter]), vec!["PointerEnter".to_string(), "PointerMove".to_string()]);
    assert_eq!(
        framework_setup(&vec![exit, drag("box", None), click, done]),
        vec!["Click", "OnLoopComplete", "PointerDown", "PointerExit", "PointerMove", "PointerUp"]
            .into_iter()
            .map(String::from)
            .collect::<Vec<_>>()
    );
    let mut sorted = framework_setup(&vec![
        Interaction::PointerUp { layer_name: None, actions: vec![] },
        Interaction::PointerMove { state_name: None, actions: vec![] },
        Interaction::OnComplete { state_name: DotString::new("s"), actions: vec![] },
        Interaction::PointerDown { layer_name: None, actions: vec![] },
    ]);
    let got = sorted.clone();
    sorted.sort();
    sorted.dedup();
    assert_eq!(got, sorted);
    assert_eq!(got, vec!["OnComplete", "PointerDown", "PointerMove", "PointerUp"]);
}

#[test]
fn pointer_interactions_on_layers_are_watched() {
    let list = vec![
        Interaction::PointerDown { layer_name: Some(DotString::new("a")), actions: vec![] },
        Interaction::PointerUp { layer_name: None, actions: vec![] },
        Interaction::Click { layer_name: Some(DotString::new("c")), actions: vec![] },
        drag("box", None),
        Interaction::PointerExit { layer_name: Some(DotString::new("b")), actions: vec![] },
        Interaction::PointerEnter { layer_name: Some(DotString::new("a")), actions: vec![] },
    ];
    let got: Vec<(String, &str)> =
        listened_layers(&list).into_iter().map(|(l, t)| (l.as_str().to_string(), t)).collect();
    assert_eq!(
        got,
        vec![
            ("a".to_string(), "PointerDown"),
            ("b".to_string(), "PointerExit"),
            ("a".to_string(), "PointerEnter"),
        ]
    );
}

#[test]
fn engine_interactions_intern_their_names() {
    let mut interner = DotStringInterner::new();
    let mut d = drag("box", None);
    d.intern_identifiers(&mut interner);
    // box, pos, playing and the zone's layer.
    assert_eq!(interner.len(), 4);
    assert_eq!(d.get_layer_name().map(|n| n.as_str()), Some("box"));
    assert_eq!(d.get_state_name(), Some("playing".to_string()));
    let mut c = Interaction::OnComplete { state_name: DotString::new("playing"), actions: vec![] };
    c.intern_identifiers(&mut interner);
    assert_eq!(interner.len(), 4);
    let mut m = Interaction::PointerMove { state_name: None, actions: vec![] };
    m.intern_identifiers(&mut interner);
    assert_eq!(interner.len(), 4);
    let mut u = Interaction::PointerUp { layer_name: Some(DotString::new("button")), actions: vec![] };
    u.intern_identifiers(&mut interner);
    assert_eq!(interner.len(), 5);
    assert_eq!(u.get_layer_name().map(|n| n.as_str()), Some("button"));
}

#[test]
fn entering_a_state_asks_for_its_settings_in_order() {
    let (steps, r) = entry_steps(&playback("a", vec![]));
    assert_eq!(r, Ok(()));
    assert_eq!(
        steps,
        vec![
            EntryStep::SetMode(Mode::Forward),
            EntryStep::SetLoop(false),
            EntryStep::SetLoopCount(0),
            EntryStep::SetSpeed(b(1.0)),
            EntryStep::SetBackgroundColor(None),
            EntryStep::ClearSegment,
            EntryStep::SetMarker(None),
            EntryStep::SetAutoplay(false),
            EntryStep::LoadAnimation("anim".to_string()),
            EntryStep::RunEntryActions,
        ]
    );
    let full = State::PlaybackState {
        name: "b".to_string(),
        transitions: vec![],
        animation: String::new(),
        looping: Some(true),
        loop_count: Some(3),
        is_final: Some(true),
        autoplay: Some(true),
        mode: Some("Bounce".to_string()),
        speed: Some(b(2.0)),
        segment: Some("intro".to_string()),
        background_color: Some(0xff00ff),
        entry_actions: None,
        exit_actions: None,
    };
    assert_eq!(
        entry_steps(&full),
        (
            vec![
                EntryStep::SetMode(Mode::Bounce),
                EntryStep::SetLoop(true),
                EntryStep::SetLoopCount(3),
                EntryStep::SetSpeed(b(2.0)),
                EntryStep::SetBackgroundColor(Some(0xff00ff)),
                EntryStep::ClearSegment,
                EntryStep::SetMarker(Some("intro".to_string())),
                EntryStep::SetAutoplay(true),
                EntryStep::RunEntryActions,
                EntryStep::Stop,
            ],
            Ok(())
        )
    );
    let bad_mode = State::PlaybackState {
        name: "c".to_string(),
        transitions: vec![],
        animation: String::new(),
        looping: None,
        loop_count: None,
        is_final: None,
        autoplay: None,
        mode: Some("Sideways".to_string()),
        speed: None,
        segment: None,
        background_color: None,
        entry_actions: None,
        exit_actions: None,
    };
    assert_eq!(entry_steps(&bad_mode), (vec![], Err(StateMachineActionError::ParsingError)));
    assert_eq!(entry_steps(&global("g", vec![])), (vec![EntryStep::RunEntryActions], Ok(())));
}

#[test]
fn changing_state_finds_the_target_and_plans_the_change() {
    let states = vec![playback("a", vec![]), playback("b", vec![]), playback("a", vec![])];
    let g = Some(global("g", vec![]));
    assert_eq!(find_state(g.as_ref(), &states, "a"), Some(StateRef::Listed(0)));
    assert_eq!(find_state(g.as_ref(), &states, "b"), Some(StateRef::Listed(1)));
    assert_eq!(find_state(g.as_ref(), &states, "g"), Some(StateRef::Global));
    assert_eq!(find_state(None, &states, "g"), None);
    let current = Some(playback("b", vec![]));
    let tween = Transition::Tweened { to_state: DotString::new("a"), guards: None, duration: b(1.0), easing: [0; 4] };
    let plain_t = plain("a", None);
    assert_eq!(plan_state_change(g.as_ref(), &states, current.as_ref(), "zzz", None, false), None);
    // Same animation ("anim") and a tweened transition: tween first.
    assert_eq!(
        plan_state_change(g.as_ref(), &states, current.as_ref(), "a", Some(&tween), false),
        Some(StateChange { target: StateRef::Listed(0), run_exit_actions: true, next: StateChangeNext::TryTween })
    );
    assert_eq!(
        plan_state_change(g.as_ref(), &states, current.as_ref(), "a", Some(&plain_t), true),
        Some(StateChange { target: StateRef::Listed(0), run_exit_actions: false, next: StateChangeNext::Enter })
    );
    assert_eq!(
        plan_state_change(g.as_ref(), &states, current.as_ref(), "g", Some(&tween), false),
        Some(StateChange { target: StateRef::Global, run_exit_actions: true, next: StateChangeNext::Stay })
    );
    assert_eq!(
        plan_state_change(g.as_ref(), &states, None, "a", Some(&tween), false),
        Some(StateChange { target: StateRef::Listed(0), run_exit_actions: false, next: StateChangeNext::Enter })
    );
}
