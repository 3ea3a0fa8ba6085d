use dotlottie::state_machine::actions::{resolve_clamp_bound, resolve_random_bound, Action};
use dotlottie::state_machine::definition::{StringBool, StringNumber, StringNumberBool};
use dotlottie::state_machine::interactions::{Interaction, InteractionTrait};
use dotlottie::string::DotStringInterner;
use dotlottie::state_machine::inputs::InputManager;
use dotlottie::state_machine::security::state_machine_state_check_pipeline;
use dotlottie::state_machine::states::State;
use dotlottie::state_machine::transitions::guard::{
    compare_bits, Guard, TransitionGuardConditionType as C,
};
use dotlottie::state_machine::transitions::{Transition, Tween};
use dotlottie::state_machine::Error;
use dotlottie::string::DotString;

fn b(x: f32) -> u32 {
    x.to_bits()
}

fn ds(s: &str) -> DotString {
    DotString::new(s)
}

const CONDITIONS: [C; 6] = [
    C::GreaterThan,
    C::GreaterThanOrEqual,
    C::LessThan,
    C::LessThanOrEqual,
    C::Equal,
    C::NotEqual,
];

fn float_compare(c: &C, x: f32, y: f32) -> bool {
    match c {
        C::GreaterThan => x > y,
        C::GreaterThanOrEqual => x >= y,
        C::LessThan => x < y,
        C::LessThanOrEqual => x <= y,
        C::Equal => x == y,
        C::NotEqual => x != y,
    }
}

#[test]
fn bit_pattern_comparison_agrees_with_f32() {
    let values = [
        0.0f32,
        -0.0,
        1.0,
        -1.0,
        0.5,
        -0.5,
        1e-45,
        -1e-45,
        f32::MIN_POSITIVE,
        f32::MAX,
        f32::MIN,
        f32::INFINITY,
        f32::NEG_INFINITY,
        f32::NAN,
        -f32::NAN,
        3.25,
        100.0,
        -100.0,
    ];
    for c in CONDITIONS.iter() {
        for &x in values.iter() {
            for &y in values.iter() {
                assert_eq!(
                    compare_bits(c, b(x), b(y)),
                    float_compare(c, x, y),
                    "{:?} {} {}",
                    c,
                    x,
                    y
                );
            }
        }
    }
}

fn inputs() -> InputManager {
    let mut m = InputManager::new();
    m.set_initial_numeric("n", b(5.0));
    m.set_initial_numeric("limit", b(3.0));
    m.set_initial_boolean("flag", true);
    m.set_initial_boolean("other", false);
    m.set_initial_string("s", "hello");
    m.set_initial_string("t", "hello");
    m.set_initial_event("go");
    m
}

#[test]
fn numeric_guard_compares_with_literal_and_references() {
    let m = inputs();
    let g = Guard::Numeric {
        input_name: ds("n"),
        condition_type: C::GreaterThan,
        compare_to: StringNumberBool::F32(b(4.0)),
    };
    assert!(g.is_satisfied(&m, 0, None));
    let g = Guard::Numeric {
        input_name: ds("n"),
        condition_type: C::LessThan,
        compare_to: StringNumberBool::String("$limit".to_string()),
    };
    assert!(!g.is_satisfied(&m, 0, None));
    let g = Guard::Numeric {
        input_name: ds("n"),
        condition_type: C::GreaterThan,
        compare_to: StringNumberBool::String("$$limit".to_string()),
    };
    assert!(g.is_satisfied(&m, 0, None));
    // The elapsed time is a built-in numeric input.
    let g = Guard::Numeric {
        input_name: ds("@elapsedTime"),
        condition_type: C::GreaterThanOrEqual,
        compare_to: StringNumberBool::F32(b(2.0)),
    };
    assert!(g.is_satisfied(&m, b(2.5), None));
    assert!(!g.is_satisfied(&m, b(1.0), None));
    let g = Guard::Numeric {
        input_name: ds("n"),
        condition_type: C::GreaterThan,
        compare_to: StringNumberBool::String("@elapsedTime".to_string()),
    };
    assert!(g.is_satisfied(&m, b(1.0), None));
    // Unresolvable references and booleans leave the guard unsatisfied.
    let g = Guard::Numeric {
        input_name: ds("n"),
        condition_type: C::NotEqual,
        compare_to: StringNumberBool::String("limit".to_string()),
    };
    assert!(!g.is_satisfied(&m, 0, None));
    let g = Guard::Numeric {
        input_name: ds("n"),
        condition_type: C::NotEqual,
        compare_to: StringNumberBool::Bool(true),
    };
    assert!(!g.is_satisfied(&m, 0, None));
    let g = Guard::Numeric {
        input_name: ds("missing"),
        condition_type: C::NotEqual,
        compare_to: StringNumberBool::F32(b(1.0)),
    };
    assert!(!g.is_satisfied(&m, 0, None));
}

#[test]
fn string_and_boolean_guards_only_know_equality() {
    let m = inputs();
    let g = Guard::String {
        input_name: ds("s"),
        condition_type: C::Equal,
        compare_to: StringNumberBool::String("hello".to_string()),
    };
    assert!(g.is_satisfied(&m, 0, None));
    let g = Guard::String {
        input_name: ds("s"),
        condition_type: C::Equal,
        compare_to: StringNumberBool::String("$t".to_string()),
    };
    assert!(g.is_satisfied(&m, 0, None));
    let g = Guard::String {
        input_name: ds("s"),
        condition_type: C::NotEqual,
        compare_to: StringNumberBool::String("bye".to_string()),
    };
    assert!(g.is_satisfied(&m, 0, None));
    let g = Guard::String {
        input_name: ds("s"),
        condition_type: C::GreaterThan,
        compare_to: StringNumberBool::String("a".to_string()),
    };
    assert!(!g.is_satisfied(&m, 0, None));
    let g = Guard::String {
        input_name: ds("s"),
        condition_type: C::Equal,
        compare_to: StringNumberBool::String("$unknown".to_string()),
    };
    assert!(!g.is_satisfied(&m, 0, None));
    let g = Guard::Boolean {
        input_name: ds("flag"),
        condition_type: C::Equal,
        compare_to: StringBool::Bool(true),
    };
    assert!(g.is_satisfied(&m, 0, None));
    let g = Guard::Boolean {
        input_name: ds("flag"),
        condition_type: C::NotEqual,
        compare_to: StringBool::String("$other".to_string()),
    };
    assert!(g.is_satisfied(&m, 0, None));
    let g = Guard::Boolean {
        input_name: ds("flag"),
        condition_type: C::Equal,
        compare_to: StringBool::String("other".to_string()),
    };
    assert!(!g.is_satisfied(&m, 0, None));
}

#[test]
fn event_guard_needs_its_event() {
    let m = inputs();
    let g = Guard::Event { input_name: ds("go") };
    assert!(g.is_satisfied(&m, 0, Some(&ds("go"))));
    assert!(!g.is_satisfied(&m, 0, Some(&ds("stop"))));
    assert!(!g.is_satisfied(&m, 0, None));
}

#[test]
fn zero_and_negative_durations_are_instant() {
    assert!(Tween::default().is_instant());
    assert!(Tween { duration: b(-0.0), easing: [0; 4] }.is_instant());
    assert!(Tween { duration: b(-1.0), easing: [0; 4] }.is_instant());
    assert!(!Tween { duration: b(500.0), easing: [0; 4] }.is_instant());
    assert!(!Tween { duration: b(f32::NAN), easing: [0; 4] }.is_instant());
}

fn transition(to: &str, guards: Option<Vec<Guard>>) -> Transition {
    Transition { to_state: ds(to), guards, tween: Tween::default() }
}

#[test]
fn transition_guards_and_event_guards() {
    let t = transition("a", None);
    assert!(t.guards().is_empty());
    assert!(!t.contains_event_guard());
    let t = transition(
        "a",
        Some(vec![
            Guard::Boolean {
                input_name: ds("flag"),
                condition_type: C::Equal,
                compare_to: StringBool::Bool(true),
            },
            Guard::Event { input_name: ds("go") },
        ]),
    );
    assert_eq!(t.guards().len(), 2);
    assert!(t.contains_event_guard());
}

fn playback(name: &str, transitions: Vec<Transition>) -> State {
    State::PlaybackState {
        name: ds(name),
        transitions,
        animation: ds("anim"),
        looping: None,
        loop_count: None,
        is_final: None,
        autoplay: None,
        speed: None,
        segment: None,
        background_color: None,
    }
}

fn global(name: &str, transitions: Vec<Transition>) -> State {
    State::GlobalState { name: ds(name), transitions }
}

#[test]
fn valid_definition_passes_the_checks() {
    let m = inputs();
    let states = vec![
        playback(
            "a",
            vec![
                transition("b", None),
                transition(
                    "b",
                    Some(vec![Guard::Numeric {
                        input_name: ds("n"),
                        condition_type: C::GreaterThan,
                        compare_to: StringNumberBool::String("@elapsedTime".to_string()),
                    }]),
                ),
            ],
        ),
        playback("b", vec![transition("a", Some(vec![Guard::Event { input_name: ds("go") }]))]),
        global("g", vec![]),
    ];
    assert_eq!(state_machine_state_check_pipeline(&states, &m), Ok(()));
    assert_eq!(state_machine_state_check_pipeline(&vec![], &m), Ok(()));
}

#[test]
fn second_global_state_is_refused() {
    let m = inputs();
    let states = vec![global("g1", vec![]), playback("a", vec![]), global("g2", vec![])];
    assert_eq!(state_machine_state_check_pipeline(&states, &m), Err(Error::MultipleGlobalStates));
}

#[test]
fn duplicate_state_name_is_refused() {
    let m = inputs();
    let states = vec![playback("a", vec![]), global("a", vec![])];
    assert_eq!(state_machine_state_check_pipeline(&states, &m), Err(Error::DuplicateStateName));
}

#[test]
fn two_guardless_transitions_are_refused() {
    let m = inputs();
    let states =
        vec![playback("a", vec![transition("b", None), transition("c", None)]), playback("b", vec![])];
    assert_eq!(
        state_machine_state_check_pipeline(&states, &m),
        Err(Error::MultipleGuardlessTransitions)
    );
    // An empty guard list is no guard either.
    let states = vec![playback("a", vec![transition("b", None), transition("c", Some(vec![]))])];
    assert_eq!(
        state_machine_state_check_pipeline(&states, &m),
        Err(Error::MultipleGuardlessTransitions)
    );
    let states = vec![playback("a", vec![transition("b", Some(vec![])), transition("c", Some(vec![]))])];
    assert_eq!(
        state_machine_state_check_pipeline(&states, &m),
        Err(Error::MultipleGuardlessTransitions)
    );
}

#[test]
fn undeclared_references_are_refused() {
    let m = inputs();
    let bad_guards = vec![
        Guard::Numeric {
            input_name: ds("n"),
            condition_type: C::Equal,
            compare_to: StringNumberBool::String("$nope".to_string()),
        },
        Guard::Boolean {
            input_name: ds("flag"),
            condition_type: C::Equal,
            compare_to: StringBool::String("$n".to_string()),
        },
        Guard::String {
            input_name: ds("s"),
            condition_type: C::Equal,
            compare_to: StringNumberBool::String("$flag".to_string()),
        },
        Guard::Event { input_name: ds("flag") },
    ];
    for g in bad_guards {
        let states = vec![playback("a", vec![transition("a", Some(vec![g]))])];
        assert_eq!(
            state_machine_state_check_pipeline(&states, &m),
            Err(Error::InvalidCompareToInput)
        );
    }
    // A string literal is not a reference.
    let states = vec![playback(
        "a",
        vec![transition(
            "a",
            Some(vec![Guard::String {
                input_name: ds("s"),
                condition_type: C::Equal,
                compare_to: StringNumberBool::String("plain".to_string()),
            }]),
        )],
    )];
    assert_eq!(state_machine_state_check_pipeline(&states, &m), Ok(()));
}

#[test]
fn the_first_failing_state_decides_the_error() {
    let m = inputs();
    let states = vec![
        playback("a", vec![transition("b", None), transition("c", None)]),
        playback("a", vec![]),
    ];
    assert_eq!(
        state_machine_state_check_pipeline(&states, &m),
        Err(Error::MultipleGuardlessTransitions)
    );
    // Within one state, a bad guard is found before the guardless count.
    let states = vec![playback(
        "a",
        vec![
            transition("b", None),
            transition("c", None),
            transition("d", Some(vec![Guard::Event { input_name: ds("missing") }])),
        ],
    )];
    assert_eq!(state_machine_state_check_pipeline(&states, &m), Err(Error::InvalidCompareToInput));
}

#[test]
fn state_accessors() {
    let p = playback("a", vec![transition("b", None)]);
    assert_eq!(p.name().as_str(), "a");
    assert_eq!(p.animation(), "anim");
    assert_eq!(p.get_type(), "PlaybackState");
    assert_eq!(p.transitions().len(), 1);
    let g = global("g", vec![]);
    assert_eq!(g.animation(), "");
    assert_eq!(g.get_type(), "GlobalState");
}

#[test]
fn interning_shares_storage_between_equal_names() {
    let mut interner = DotStringInterner::new();
    let mut a = playback(
        "idle",
        vec![transition("run", Some(vec![Guard::Event { input_name: ds("go") }]))],
    );
    let mut b = playback("run", vec![transition("idle", None)]);
    a.intern_identifiers(&mut interner);
    b.intern_identifiers(&mut interner);
    // idle, anim, run, go
    assert_eq!(interner.len(), 4);
    let a_target = a.transitions()[0].to_state.clone();
    assert_eq!(a_target.as_str(), "run");
    assert!(a_target.shares_storage(b.name()));
    assert!(b.transitions()[0].to_state.shares_storage(a.name()));
    match &a.transitions()[0].guards().first() {
        Some(Guard::Event { input_name }) => assert_eq!(input_name.as_str(), "go"),
        other => panic!("unexpected {:?}", other),
    }

    let mut action = Action::Toggle { input_name: ds("go") };
    action.intern_identifiers(&mut interner);
    assert_eq!(interner.len(), 4);
    let mut url = Action::OpenUrl { url: "https://x".to_string(), target: String::new() };
    url.intern_identifiers(&mut interner);
    assert_eq!(interner.len(), 4);
}

#[test]
fn action_bounds_resolve_or_fail() {
    let m = inputs();
    assert_eq!(resolve_clamp_bound(&m, 0, &None), Ok(None));
    assert_eq!(resolve_clamp_bound(&m, 0, &Some(StringNumber::F32(b(2.0)))), Ok(Some(b(2.0))));
    assert_eq!(
        resolve_clamp_bound(&m, 0, &Some(StringNumber::String("$limit".to_string()))),
        Ok(Some(b(3.0)))
    );
    assert_eq!(resolve_clamp_bound(&m, 0, &Some(StringNumber::String("limit".to_string()))), Err(()));
    assert_eq!(resolve_random_bound(&m, 0, &None, b(1.0)), Ok(b(1.0)));
    assert_eq!(
        resolve_random_bound(&m, b(7.0), &Some(StringNumber::String("@elapsedTime".to_string())), 0),
        Ok(b(7.0))
    );
    assert_eq!(
        resolve_random_bound(&m, 0, &Some(StringNumber::String("$missing".to_string())), 0),
        Err(())
    );
}

#[test]
fn interactions_answer_and_intern_their_names() {
    let mut interner = DotStringInterner::new();
    let mut click = Interaction::Click {
        layer_name: Some(ds("button")),
        actions: vec![Action::Fire { input_name: ds("go") }, Action::SetTheme { value: "dark".to_string() }],
    };
    assert_eq!(click.get_layer_name().map(|n| n.as_str().to_string()), Some("button".to_string()));
    assert_eq!(click.get_state_name(), None);
    assert_eq!(click.interaction_type_name(), "Click");
    assert_eq!(click.get_actions().len(), 2);
    click.intern_identifiers(&mut interner);
    assert_eq!(interner.len(), 2);

    let mut done = Interaction::OnComplete { state_name: ds("intro"), actions: vec![] };
    assert_eq!(done.get_state_name(), Some("intro".to_string()));
    assert!(done.get_layer_name().is_none());
    assert_eq!(done.interaction_type_name(), "OnComplete");
    done.intern_identifiers(&mut interner);
    assert_eq!(interner.len(), 3);

    let mut moved = Interaction::PointerMove { actions: vec![Action::Toggle { input_name: ds("go") }] };
    moved.intern_identifiers(&mut interner);
    assert_eq!(interner.len(), 3);
    assert_eq!(
        Interaction::OnMotionComplete { motion_name: ds("m"), actions: vec![] }.interaction_type_name(),
        "OnMotionComplete"
    );
}
