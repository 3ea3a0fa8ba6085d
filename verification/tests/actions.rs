use dotlottie::state_machine::actions::effects::{resolve_action, ActionEffect, ONE_BITS};
use dotlottie::state_machine::actions::whitelist::Whitelist;
use dotlottie::state_machine::actions::{Action, StateMachineActionError};
use dotlottie::state_machine::definition::{StringBool, StringNumber};
use dotlottie::state_machine::events::Event;
use dotlottie::state_machine::inputs::InputManager;
use dotlottie::string::DotString;

fn b(x: f32) -> u32 {
    x.to_bits()
}

fn name(s: &str) -> DotString {
    DotString::new(s)
}

fn inputs() -> InputManager {
    let mut m = InputManager::new();
    m.set_initial_numeric("count", b(3.5));
    m.set_initial_numeric("lo", b(1.0));
    m.set_initial_numeric("hi", b(2.0));
    m.set_initial_boolean("on", true);
    m.set_initial_boolean("off", false);
    m.set_initial_string("label", "x");
    m.set_initial_string("site", "https://example.com/");
    m
}

fn run(action: &Action) -> Result<ActionEffect, StateMachineActionError> {
    let mut w = Whitelist::new();
    w.add("*");
    resolve_action(action, &inputs(), b(4.0), &w, false, None)
}

fn n(v: f32) -> StringNumber {
    StringNumber::F32(b(v))
}

fn r(s: &str) -> StringNumber {
    StringNumber::String(s.to_string())
}

#[test]
fn arithmetic_actions_name_their_operands() {
    let count = || "count".to_string();
    assert_eq!(
        run(&Action::Increment { input_name: name("count"), value: None }),
        Ok(ActionEffect::AddNumeric { input_name: count(), current: b(3.5), amount: ONE_BITS })
    );
    assert_eq!(
        run(&Action::Increment { input_name: name("count"), value: Some(r("@elapsedTime")) }),
        Ok(ActionEffect::AddNumeric { input_name: count(), current: b(3.5), amount: b(4.0) })
    );
    // A reference must start with `$` or `@`; anything else counts as `1.0`.
    assert_eq!(
        run(&Action::Decrement { input_name: name("count"), value: Some(r("hi")) }),
        Ok(ActionEffect::SubtractNumeric { input_name: count(), current: b(3.5), amount: ONE_BITS })
    );
    assert_eq!(
        run(&Action::Multiply { input_name: name("count"), value: r("$hi") }),
        Ok(ActionEffect::MultiplyNumeric { input_name: count(), current: b(3.5), operand: b(2.0) })
    );
    assert_eq!(run(&Action::Multiply { input_name: name("count"), value: r("$none") }), Ok(ActionEffect::Nothing));
    assert_eq!(
        run(&Action::Floor { input_name: name("count") }),
        Ok(ActionEffect::FloorNumeric { input_name: count(), current: b(3.5) })
    );
    assert_eq!(run(&Action::Floor { input_name: name("none") }), Ok(ActionEffect::Nothing));
    // The elapsed time can be the subject too.
    assert_eq!(
        run(&Action::Floor { input_name: name("@elapsedTime") }),
        Ok(ActionEffect::FloorNumeric { input_name: "@elapsedTime".to_string(), current: b(4.0) })
    );
}

#[test]
fn clamp_and_random_check_their_bounds() {
    let clamp = |min: Option<StringNumber>, max: Option<StringNumber>| Action::Clamp {
        input_name: name("count"),
        min,
        max,
    };
    assert_eq!(
        run(&clamp(Some(r("$lo")), Some(r("$hi")))),
        Ok(ActionEffect::SetNumeric { input_name: "count".to_string(), value: b(2.0) })
    );
    assert_eq!(
        run(&clamp(None, Some(n(0.0)))),
        Ok(ActionEffect::SetNumeric { input_name: "count".to_string(), value: b(0.0) })
    );
    assert_eq!(
        run(&clamp(Some(n(5.0)), None)),
        Ok(ActionEffect::SetNumeric { input_name: "count".to_string(), value: b(5.0) })
    );
    // A value already within the bounds is left alone.
    assert_eq!(run(&clamp(Some(n(0.0)), Some(n(10.0)))), Ok(ActionEffect::Nothing));
    assert_eq!(run(&clamp(None, None)), Ok(ActionEffect::Nothing));
    assert_eq!(run(&clamp(Some(r("$hi")), Some(r("$lo")))), Ok(ActionEffect::Nothing));
    assert_eq!(run(&clamp(Some(r("$missing")), None)), Ok(ActionEffect::Nothing));
    // Equal bounds are fine; a NaN bound is never greater.
    assert_eq!(
        run(&clamp(Some(n(1.0)), Some(n(1.0)))),
        Ok(ActionEffect::SetNumeric { input_name: "count".to_string(), value: b(1.0) })
    );
    assert_eq!(
        run(&clamp(Some(n(f32::NAN)), Some(n(1.0)))),
        Ok(ActionEffect::SetNumeric { input_name: "count".to_string(), value: b(1.0) })
    );

    let random = |min: Option<StringNumber>, max: Option<StringNumber>, integer: Option<bool>| Action::SetRandom {
        input_name: name("count"),
        min,
        max,
        integer,
    };
    assert_eq!(
        run(&random(None, None, None)),
        Ok(ActionEffect::RandomNumeric { input_name: "count".to_string(), min: b(0.0), max: b(1.0), integer: false })
    );
    assert_eq!(
        run(&random(Some(n(1.0)), Some(n(6.0)), Some(true))),
        Ok(ActionEffect::RandomNumeric { input_name: "count".to_string(), min: b(1.0), max: b(6.0), integer: true })
    );
    assert_eq!(run(&random(Some(n(6.0)), Some(n(1.0)), Some(true))), Ok(ActionEffect::Nothing));
    assert_eq!(run(&random(Some(r("$missing")), None, None)), Ok(ActionEffect::Nothing));
    assert_eq!(run(&Action::SetRandom { input_name: name("none"), min: None, max: None, integer: None }), Ok(ActionEffect::Nothing));
}

#[test]
fn writes_and_player_effects() {
    assert_eq!(
        run(&Action::Toggle { input_name: name("on") }),
        Ok(ActionEffect::SetBoolean { input_name: "on".to_string(), value: false })
    );
    assert_eq!(
        run(&Action::SetBoolean { input_name: name("on"), value: StringBool::String("$off".to_string()) }),
        Ok(ActionEffect::SetBoolean { input_name: "on".to_string(), value: false })
    );
    assert_eq!(
        run(&Action::SetNumeric { input_name: name("count"), value: r("@elapsedTime") }),
        Ok(ActionEffect::SetNumeric { input_name: "count".to_string(), value: b(4.0) })
    );
    assert_eq!(
        run(&Action::SetString { input_name: name("label"), value: "$site".to_string() }),
        Ok(ActionEffect::SetString { input_name: "label".to_string(), value: "https://example.com/".to_string() })
    );
    assert_eq!(run(&Action::SetFrame { value: r("$none") }), Err(StateMachineActionError::ExecuteError));
    assert_eq!(run(&Action::SetFrame { value: n(12.0) }), Ok(ActionEffect::SetFrame { frame: b(12.0) }));
    assert_eq!(run(&Action::SetProgress { value: r("$none") }), Ok(ActionEffect::Nothing));
    assert_eq!(run(&Action::SetProgress { value: r("$hi") }), Ok(ActionEffect::SetProgress { percentage: b(2.0) }));
    assert_eq!(
        run(&Action::SetTheme { value: "$label".to_string() }),
        Ok(ActionEffect::SetTheme { theme_id: "x".to_string() })
    );
}

#[test]
fn links_follow_the_policy() {
    let m = inputs();
    let mut w = Whitelist::new();
    w.add("example.com");
    let open = Action::OpenUrl { url: "$site".to_string(), target: "_self".to_string() };
    assert_eq!(
        resolve_action(&open, &m, 0, &w, false, None),
        Ok(ActionEffect::OpenUrl { command: "OpenUrl: https://example.com/ | Target: _self".to_string() })
    );
    let click = Event::Click { x: 0, y: 0 };
    let moved = Event::PointerMove { x: 0, y: 0 };
    assert!(resolve_action(&open, &m, 0, &w, true, Some(&click)).is_ok());
    assert_eq!(resolve_action(&open, &m, 0, &w, true, Some(&moved)), Err(StateMachineActionError::ExecuteError));
    let elsewhere = Action::OpenUrl { url: "https://other.org/".to_string(), target: String::new() };
    assert_eq!(resolve_action(&elsewhere, &m, 0, &w, false, None), Err(StateMachineActionError::ExecuteError));
}
