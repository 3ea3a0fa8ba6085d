use dotlottie::state_machine_engine::actions::effects::{resolve_action, ActionEffect, ONE_F32_BITS};
use dotlottie::state_machine_engine::actions::whitelist::Whitelist;
use dotlottie::state_machine_engine::actions::{Action, StateMachineActionError};
use dotlottie::state_machine_engine::events::Event;
use dotlottie::state_machine_engine::inputs::InputManager;
use dotlottie::state_machine_engine::state_machine::{StringBool, StringNumber};
use dotlottie::state_machine_engine::transitions::guard::{Guard, TransitionGuardConditionType};

fn b(x: f32) -> u32 {
    x.to_bits()
}

fn inputs() -> InputManager {
    let mut m = InputManager::new();
    m.set_initial_numeric("count", b(3.0));
    m.set_initial_numeric("step", b(2.0));
    m.set_initial_boolean("on", true);
    m.set_initial_boolean("other", false);
    m.set_initial_string("name", "alice");
    m.set_initial_string("link", "https://example.com/page");
    m.set_initial_string("theme", "dark");
    m
}

fn allow_all() -> Whitelist {
    let mut w = Whitelist::new();
    w.add("*").unwrap();
    w
}

fn run(action: &Action, m: &InputManager) -> Result<ActionEffect, StateMachineActionError> {
    resolve_action(action, m, b(1.5), None, &allow_all(), false, None)
}

#[test]
fn numeric_steps_come_from_literals_references_or_one() {
    let m = inputs();
    let inc = |value: Option<StringNumber>| Action::Increment { input_name: "count".to_string(), value, guards: None };
    let add = |amount: u32| ActionEffect::AddNumeric { input_name: "count".to_string(), current: b(3.0), amount };
    assert_eq!(run(&inc(None), &m), Ok(add(ONE_F32_BITS)));
    assert_eq!(ONE_F32_BITS, b(1.0));
    assert_eq!(run(&inc(Some(StringNumber::F32(b(0.5)))), &m), Ok(add(b(0.5))));
    assert_eq!(run(&inc(Some(StringNumber::String("$step".to_string()))), &m), Ok(add(b(2.0))));
    assert_eq!(run(&inc(Some(StringNumber::String("$missing".to_string()))), &m), Ok(add(b(1.0))));
    // The elapsed time can be read as a step.
    assert_eq!(run(&inc(Some(StringNumber::String("@elapsedTime".to_string()))), &m), Ok(add(b(1.5))));
    let dec = Action::Decrement { input_name: "count".to_string(), value: None, guards: None };
    assert_eq!(
        run(&dec, &m),
        Ok(ActionEffect::SubtractNumeric { input_name: "count".to_string(), current: b(3.0), amount: b(1.0) })
    );
    let undeclared = Action::Increment { input_name: "nope".to_string(), value: None, guards: None };
    assert_eq!(run(&undeclared, &m), Ok(ActionEffect::Nothing));
}

#[test]
fn writes_resolve_their_values() {
    let m = inputs();
    let toggle = Action::Toggle { input_name: "on".to_string(), guards: None };
    assert_eq!(run(&toggle, &m), Ok(ActionEffect::SetBoolean { input_name: "on".to_string(), value: false }));
    let set_b = |value: StringBool| Action::SetBoolean { input_name: "on".to_string(), value, guards: None };
    assert_eq!(
        run(&set_b(StringBool::String("$other".to_string())), &m),
        Ok(ActionEffect::SetBoolean { input_name: "on".to_string(), value: false })
    );
    assert_eq!(run(&set_b(StringBool::String("$nope".to_string())), &m), Ok(ActionEffect::Nothing));
    assert_eq!(
        run(&set_b(StringBool::Bool(true)), &m),
        Ok(ActionEffect::SetBoolean { input_name: "on".to_string(), value: true })
    );
    let set_n = Action::SetNumeric {
        input_name: "count".to_string(),
        value: StringNumber::String("$step".to_string()),
        guards: None,
    };
    assert_eq!(run(&set_n, &m), Ok(ActionEffect::SetNumeric { input_name: "count".to_string(), value: b(2.0) }));
    let set_s = |value: &str| Action::SetString { input_name: "name".to_string(), value: value.to_string(), guards: None };
    assert_eq!(
        run(&set_s("$theme"), &m),
        Ok(ActionEffect::SetString { input_name: "name".to_string(), value: "dark".to_string() })
    );
    // A reference to nothing is written as it is.
    assert_eq!(
        run(&set_s("$bob"), &m),
        Ok(ActionEffect::SetString { input_name: "name".to_string(), value: "$bob".to_string() })
    );
    let to_nothing = Action::SetString { input_name: "nope".to_string(), value: "x".to_string(), guards: None };
    assert_eq!(run(&to_nothing, &m), Ok(ActionEffect::Nothing));
}

#[test]
fn player_effects_and_errors() {
    let m = inputs();
    let frame = |value: StringNumber| Action::SetFrame { value, guards: None };
    assert_eq!(run(&frame(StringNumber::F32(b(10.0))), &m), Ok(ActionEffect::SetFrame { frame: b(10.0) }));
    assert_eq!(run(&frame(StringNumber::String("$count".to_string())), &m), Ok(ActionEffect::SetFrame { frame: b(3.0) }));
    assert_eq!(run(&frame(StringNumber::String("$nope".to_string())), &m), Err(StateMachineActionError::ExecuteError));
    let progress = Action::SetProgress { value: StringNumber::String("$nope".to_string()), guards: None };
    assert_eq!(run(&progress, &m), Ok(ActionEffect::Nothing));
    let theme = |value: &str| Action::SetTheme { value: value.to_string(), guards: None };
    assert_eq!(run(&theme("$theme"), &m), Ok(ActionEffect::SetTheme { theme_id: "dark".to_string() }));
    assert_eq!(run(&theme("light"), &m), Ok(ActionEffect::SetTheme { theme_id: "light".to_string() }));
    assert_eq!(run(&theme("$$theme"), &m), Ok(ActionEffect::SetTheme { theme_id: "$$theme".to_string() }));
    assert_eq!(run(&theme("a\0b"), &m), Err(StateMachineActionError::ParsingError));
    let custom = Action::FireCustomEvent { value: "hello".to_string(), guards: None };
    assert_eq!(run(&custom, &m), Ok(ActionEffect::FireCustomEvent { value: "hello".to_string() }));
    let fire = Action::Fire { input_name: "go".to_string(), guards: None };
    assert_eq!(run(&fire, &m), Ok(ActionEffect::Fire { input_name: "go".to_string() }));
    let reset = Action::Reset { input_name: "count".to_string(), guards: None };
    assert_eq!(run(&reset, &m), Ok(ActionEffect::Reset { input_name: "count".to_string() }));
}

#[test]
fn failing_guards_do_nothing() {
    let m = inputs();
    let guard = Guard::Boolean {
        input_name: "on".to_string(),
        condition_type: TransitionGuardConditionType::Equal,
        compare_to: StringBool::Bool(false),
    };
    let toggle = Action::Toggle { input_name: "on".to_string(), guards: Some(vec![guard]) };
    assert_eq!(run(&toggle, &m), Ok(ActionEffect::Nothing));
    let needs_event = Action::FireCustomEvent {
        value: "x".to_string(),
        guards: Some(vec![Guard::Event { input_name: "go".to_string() }]),
    };
    assert_eq!(run(&needs_event, &m), Ok(ActionEffect::Nothing));
    assert_eq!(
        resolve_action(&needs_event, &m, 0, Some("go"), &allow_all(), false, None),
        Ok(ActionEffect::FireCustomEvent { value: "x".to_string() })
    );
}

#[test]
fn links_open_only_when_allowed() {
    let m = inputs();
    let open = |url: &str, target: &str| Action::OpenUrl { url: url.to_string(), target: target.to_string(), guards: None };
    let mut w = Whitelist::new();
    w.add("example.com/*").unwrap();
    let down = Event::PointerDown { x: 0, y: 0 };
    let up = Event::PointerUp { x: 0, y: 0 };
    assert_eq!(
        resolve_action(&open("$link", ""), &m, 0, None, &w, false, None),
        Ok(ActionEffect::OpenUrl { command: "OpenUrl: https://example.com/page".to_string() })
    );
    assert_eq!(
        resolve_action(&open("https://example.com/a", "_blank"), &m, 0, None, &w, true, Some(&down)),
        Ok(ActionEffect::OpenUrl { command: "OpenUrl: https://example.com/a | Target: _blank".to_string() })
    );
    assert_eq!(
        resolve_action(&open("https://example.com/a", ""), &m, 0, None, &w, true, Some(&up)),
        Err(StateMachineActionError::ExecuteError)
    );
    assert_eq!(
        resolve_action(&open("https://example.com/a", ""), &m, 0, None, &w, true, None),
        Err(StateMachineActionError::ExecuteError)
    );
    assert_eq!(
        resolve_action(&open("https://other.org/", ""), &m, 0, None, &w, false, None),
        Err(StateMachineActionError::ExecuteError)
    );
}
