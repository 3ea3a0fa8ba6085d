use dotlottie::state_machine_engine::actions::effects::ActionEffect;
use dotlottie::state_machine_engine::engine::{EngineState, PipelineStep};
use dotlottie::state_machine_engine::inputs::Input;
use dotlottie::state_machine_engine::states::{State, StateTrait};
use dotlottie::state_machine_engine::transitions::guard::Guard;
use dotlottie::state_machine_engine::transitions::Transition;
use dotlottie::state_machine_engine::{
    StateChange, StateChangeNext, StateMachineEngineError, StateMachineEngineStatus, StateRef,
};
use dotlottie::string::DotString;

fn to(target: &str, guards: Option<Vec<Guard>>) -> Transition {
    Transition::Transition { to_state: DotString::new(target), guards }
}

fn tweened(target: &str) -> Transition {
    Transition::Tweened { to_state: DotString::new(target), guards: None, duration: 1.0f32.to_bits(), easing: [0; 4] }
}

fn on(event: &str) -> Option<Vec<Guard>> {
    Some(vec![Guard::Event { input_name: event.to_string() }])
}

fn playback(name: &str, animation: &str, transitions: Vec<Transition>) -> State {
    State::PlaybackState {
        name: name.to_string(),
        transitions,
        animation: animation.to_string(),
        looping: None,
        loop_count: None,
        is_final: None,
        autoplay: None,
        mode: None,
        speed: None,
        segment: None,
        background_color: None,
        entry_actions: None,
        exit_actions: None,
    }
}

fn global(name: &str, transitions: Vec<Transition>) -> State {
    State::GlobalState { name: name.to_string(), transitions, animation: None, entry_actions: None, exit_actions: None }
}

fn events(names: &[&str]) -> Option<Vec<Input>> {
    Some(names.iter().map(|n| Input::Event { name: n.to_string() }).collect())
}

/// Plays the host's part: each change enters its target at once.
fn run_pipeline(e: &mut EngineState) -> Result<Vec<String>, StateMachineEngineError> {
    let mut entered = Vec::new();
    loop {
        match e.pipeline_step()? {
            PipelineStep::Done => return Ok(entered),
            PipelineStep::Change(c) => {
                if c.next != StateChangeNext::Stay {
                    e.enter_state(c.target);
                    entered.push(e.current_state_name());
                }
            }
        }
    }
}

fn started(e: &mut EngineState) {
    let c = e.start().expect("initial state");
    e.enter_state(c.target);
    assert!(e.mark_running());
}

#[test]
fn a_loaded_engine_is_stopped_in_no_state() {
    let e = EngineState::from_definition("a".to_string(), vec![playback("a", "x", vec![])], None, None, None)
        .expect("loads");
    assert_eq!(e.status(), StateMachineEngineStatus::Stopped);
    assert!(e.current_state().is_none());
    assert_eq!(e.current_state_name(), "");
}

#[test]
fn a_definition_that_fails_its_checks_is_refused() {
    let states = vec![playback("a", "x", vec![]), playback("a", "x", vec![])];
    assert!(matches!(
        EngineState::from_definition("a".to_string(), states, None, None, None),
        Err(StateMachineEngineError::CreationError)
    ));
}

#[test]
fn starting_plans_the_initial_state() {
    let e = EngineState::from_definition("b".to_string(), vec![playback("a", "x", vec![]), playback("b", "x", vec![])], None, None, None)
        .expect("loads");
    assert_eq!(
        e.start(),
        Some(StateChange { target: StateRef::Listed(1), run_exit_actions: false, next: StateChangeNext::Enter })
    );
    let none = EngineState::from_definition(String::new(), vec![playback("a", "x", vec![])], None, None, None).expect("loads");
    assert_eq!(none.start(), None);
    let missing = EngineState::from_definition("zz".to_string(), vec![playback("a", "x", vec![])], None, None, None).expect("loads");
    assert_eq!(missing.start(), None);
}

#[test]
fn the_pipeline_follows_guardless_transitions_until_none_applies() {
    let states = vec![playback("a", "x", vec![to("b", None)]), playback("b", "x", vec![to("c", None)]), playback("c", "x", vec![])];
    let mut e = EngineState::from_definition("a".to_string(), states, None, None, None).expect("loads");
    assert_eq!(e.pipeline_step(), Err(StateMachineEngineError::NotRunningError));
    started(&mut e);
    assert_eq!(run_pipeline(&mut e), Ok(vec!["b".to_string(), "c".to_string()]));
    assert_eq!(e.current_state_name(), "c");
}

#[test]
fn a_cycle_stops_the_engine_at_the_limit() {
    let states = vec![playback("a", "x", vec![to("b", None)]), playback("b", "x", vec![to("a", None)])];
    let mut e = EngineState::from_definition("a".to_string(), states, None, None, Some(3)).expect("loads");
    started(&mut e);
    assert_eq!(run_pipeline(&mut e), Err(StateMachineEngineError::InfiniteLoopError));
    assert_eq!(e.status(), StateMachineEngineStatus::Stopped);
}

#[test]
fn events_must_be_declared_and_are_consumed() {
    let states = vec![playback("a", "x", vec![to("b", on("go"))]), playback("b", "x", vec![])];
    let mut e = EngineState::from_definition("a".to_string(), states, events(&["go"]), None, None).expect("loads");
    started(&mut e);
    assert_eq!(run_pipeline(&mut e), Ok(vec![]));
    assert_eq!(e.fire("nope"), Err(StateMachineEngineError::FireEventError));
    assert_eq!(e.fire("go"), Ok(()));
    assert_eq!(run_pipeline(&mut e), Ok(vec!["b".to_string()]));
}

#[test]
fn the_global_state_is_looked_at_first() {
    let states = vec![
        global("g", vec![to("c", on("go"))]),
        playback("a", "x", vec![to("b", on("go"))]),
        playback("b", "x", vec![]),
        playback("c", "x", vec![]),
    ];
    let mut e = EngineState::from_definition("a".to_string(), states, events(&["go"]), None, None).expect("loads");
    started(&mut e);
    assert_eq!(e.fire("go"), Ok(()));
    assert_eq!(run_pipeline(&mut e), Ok(vec!["c".to_string()]));
}

#[test]
fn reserved_inputs_and_tweens_refuse_writes() {
    let states = vec![playback("a", "x", vec![tweened("b")]), playback("b", "x", vec![])];
    let inputs = Some(vec![
        Input::Numeric { name: "n".to_string(), value: 1.0f32.to_bits() },
        Input::Boolean { name: "f".to_string(), value: false },
        Input::String { name: "s".to_string(), value: "x".to_string() },
    ]);
    let mut e = EngineState::from_definition("a".to_string(), states, inputs, None, None).expect("loads");
    assert_eq!(e.set_numeric_input("@n", 2.0f32.to_bits(), false), None);
    assert_eq!(e.set_numeric_input("n", 2.0f32.to_bits(), false), Some(1.0f32.to_bits()));
    assert_eq!(e.inputs().get_numeric("n"), Some(2.0f32.to_bits()));
    // Reset needs a running engine.
    e.reset_input("n", false);
    assert_eq!(e.inputs().get_numeric("n"), Some(2.0f32.to_bits()));
    started(&mut e);
    e.reset_input("n", false);
    assert_eq!(e.inputs().get_numeric("n"), Some(1.0f32.to_bits()));
    // Same animation and a tweened transition: the engine tweens.
    match e.pipeline_step() {
        Ok(PipelineStep::Change(c)) => {
            assert_eq!(c.next, StateChangeNext::TryTween);
            e.begin_tween(c.target);
        }
        other => panic!("expected a change, got {other:?}"),
    }
    assert_eq!(e.pipeline_step(), Ok(PipelineStep::Done));
    assert_eq!(e.status(), StateMachineEngineStatus::Tweening);
    assert_eq!(e.set_boolean_input("f", true, false), None);
    assert_eq!(e.set_string_input("s", "y", false), None);
    assert_eq!(e.pipeline_step(), Ok(PipelineStep::Done));
    assert_eq!(e.resume_from_tweening(), Some(StateRef::Listed(1)));
    assert_eq!(e.status(), StateMachineEngineStatus::Running);
    assert_eq!(e.current_state().map(|s| s.name()), Some("b".to_string()));
    assert_eq!(e.resume_from_tweening(), None);
    assert_eq!(e.set_string_input("s", "y", true), Some("x".to_string()));
}

#[test]
fn actions_write_inputs_through_the_engine() {
    let states = vec![playback("a", "x", vec![to("b", on("go"))]), playback("b", "x", vec![])];
    let inputs = Some(vec![
        Input::Numeric { name: "n".to_string(), value: 1.0f32.to_bits() },
        Input::Boolean { name: "f".to_string(), value: false },
        Input::Event { name: "go".to_string() },
    ]);
    let mut e = EngineState::from_definition("a".to_string(), states, inputs, None, None).expect("loads");
    started(&mut e);
    assert!(e.apply_effect(&ActionEffect::SetNumeric { input_name: "n".to_string(), value: 3.0f32.to_bits() }, true));
    assert_eq!(e.inputs().get_numeric("n"), Some(3.0f32.to_bits()));
    assert!(e.apply_effect(&ActionEffect::SetBoolean { input_name: "f".to_string(), value: true }, true));
    assert_eq!(e.inputs().get_boolean("f"), Some(true));
    assert!(e.apply_effect(&ActionEffect::Reset { input_name: "n".to_string() }, true));
    assert_eq!(e.inputs().get_numeric("n"), Some(1.0f32.to_bits()));
    assert!(e.apply_effect(&ActionEffect::Fire { input_name: "go".to_string() }, true));
    assert_eq!(e.pending_event(), Some("go"));
    // Arithmetic and player work are the host's.
    assert!(!e.apply_effect(&ActionEffect::SetFrame { frame: 3 }, true));
    assert_eq!(run_pipeline(&mut e), Ok(vec!["b".to_string()]));
    assert_eq!(e.pending_event(), None);
}
