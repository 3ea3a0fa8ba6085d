use dotlottie::state_machine::inputs::{InputManager, InputValue};
use dotlottie::state_machine_engine::inputs::InputManager as EngineInputManager;
use dotlottie::state_machine_engine::inputs::InputValue as EngineInputValue;

fn bits(x: f32) -> u32 {
    x.to_bits()
}

#[test]
fn new_manager_is_empty() {
    let m = InputManager::new();
    assert!(m.is_empty());
    assert_eq!(m.len(), 0);
    let d = InputManager::default();
    assert!(d.is_empty());
}

#[test]
fn declared_inputs_are_counted_by_kind() {
    let mut m = InputManager::new();
    m.set_initial_numeric("n", bits(1.5));
    m.set_initial_boolean("b", true);
    m.set_initial_string("s", "hello");
    m.set_initial_event("e");
    assert_eq!(m.len(), 4);
    assert!(!m.is_empty());
    // Redeclaring keeps the count.
    m.set_initial_numeric("n", bits(2.0));
    m.set_initial_event("e");
    assert_eq!(m.len(), 4);
    assert_eq!(m.get_numeric("n"), Some(bits(2.0)));
}

#[test]
fn read_after_write_gives_the_written_value() {
    let mut m = InputManager::new();
    m.set_initial_numeric("n", bits(1.0));
    m.set_initial_boolean("b", false);
    m.set_initial_string("s", "a");
    assert_eq!(m.set_numeric("n", bits(7.25)), Some(bits(1.0)));
    assert_eq!(m.get_numeric("n"), Some(bits(7.25)));
    assert_eq!(m.set_boolean("b", true), Some(false));
    assert_eq!(m.get_boolean("b"), Some(true));
    assert_eq!(m.set_string("s", "b".to_string()), Some("a".to_string()));
    assert_eq!(m.get_string("s"), Some("b"));
}

#[test]
fn writing_an_undeclared_input_changes_nothing() {
    let mut m = InputManager::new();
    m.set_initial_numeric("n", bits(1.0));
    assert_eq!(m.set_numeric("missing", bits(3.0)), None);
    assert_eq!(m.get_numeric("missing"), None);
    assert_eq!(m.set_boolean("n", true), None);
    assert_eq!(m.get_boolean("n"), None);
    assert_eq!(m.set_string("n", "x".to_string()), None);
    assert_eq!(m.get_numeric("n"), Some(bits(1.0)));
    assert_eq!(m.len(), 1);
}

#[test]
fn reset_restores_the_declared_value() {
    let mut m = InputManager::new();
    m.set_initial_numeric("n", bits(1.0));
    m.set_initial_boolean("b", true);
    m.set_initial_string("s", "start");
    m.set_numeric("n", bits(5.0));
    m.set_numeric("n", bits(6.0));
    m.set_boolean("b", false);
    m.set_string("s", "changed".to_string());

    match m.reset("n") {
        Some((InputValue::Numeric(old), InputValue::Numeric(new))) => {
            assert_eq!(old, bits(6.0));
            assert_eq!(new, bits(1.0));
        }
        other => panic!("unexpected {:?}", other),
    }
    assert_eq!(m.get_numeric("n"), Some(bits(1.0)));

    match m.reset("b") {
        Some((InputValue::Boolean(old), InputValue::Boolean(new))) => {
            assert!(!old);
            assert!(new);
        }
        other => panic!("unexpected {:?}", other),
    }
    assert_eq!(m.get_boolean("b"), Some(true));

    match m.reset("s") {
        Some((InputValue::String(old), InputValue::String(new))) => {
            assert_eq!(old, "changed");
            assert_eq!(new, "start");
        }
        other => panic!("unexpected {:?}", other),
    }
    assert_eq!(m.get_string("s"), Some("start"));

    // Resetting again changes nothing and reports the declared value twice.
    match m.reset("n") {
        Some((InputValue::Numeric(old), InputValue::Numeric(new))) => {
            assert_eq!(old, bits(1.0));
            assert_eq!(new, bits(1.0));
        }
        other => panic!("unexpected {:?}", other),
    }
}

#[test]
fn reset_of_unknown_or_event_input_gives_none() {
    let mut m = InputManager::new();
    m.set_initial_event("go");
    assert!(m.reset("go").is_none());
    assert!(m.reset("nothing").is_none());
    assert_eq!(m.get_event("go"), Some("go"));
    assert_eq!(m.get_event("stop"), None);
}

#[test]
fn numeric_name_wins_on_reset() {
    let mut m = InputManager::new();
    m.set_initial_numeric("x", bits(3.0));
    m.set_initial_boolean("x", false);
    m.set_numeric("x", bits(4.0));
    m.set_boolean("x", true);
    assert!(matches!(m.reset("x"), Some((InputValue::Numeric(_), InputValue::Numeric(_)))));
    // The boolean of the same name is left alone.
    assert_eq!(m.get_boolean("x"), Some(true));
}

#[test]
fn redeclaring_resets_both_values() {
    let mut m = InputManager::new();
    m.set_initial_string("s", "one");
    m.set_string("s", "two".to_string());
    m.set_initial_string("s", "three");
    assert_eq!(m.get_string("s"), Some("three"));
    match m.reset("s") {
        Some((InputValue::String(old), InputValue::String(new))) => {
            assert_eq!(old, "three");
            assert_eq!(new, "three");
        }
        other => panic!("unexpected {:?}", other),
    }
}

#[test]
fn engine_inputs_follow_the_same_rules() {
    let mut m = EngineInputManager::new();
    assert!(m.is_empty());
    m.set_initial_numeric("n", bits(0.5));
    m.set_initial_string("s", "a");
    m.set_initial_boolean("b", false);
    m.set_initial_event("e");
    assert_eq!(m.len(), 4);
    assert_eq!(m.set_string("s", "z"), Some("a".to_string()));
    assert_eq!(m.get_string("s"), Some("z"));
    assert_eq!(m.set_numeric("n", bits(-2.0)), Some(bits(0.5)));
    assert_eq!(m.set_numeric("none", bits(1.0)), None);
    match m.reset("n") {
        Some((EngineInputValue::Numeric(old), EngineInputValue::Numeric(new))) => {
            assert_eq!(f32::from_bits(old), -2.0);
            assert_eq!(f32::from_bits(new), 0.5);
        }
        other => panic!("unexpected {:?}", other),
    }
    assert!(matches!(m.reset("s"), Some((EngineInputValue::String(_), EngineInputValue::String(_)))));
    assert_eq!(m.get_string("s"), Some("a"));
    assert_eq!(m.get_event("e"), Some("e"));
    assert!(m.reset("e").is_none());
}

#[test]
fn engine_inputs_accept_any_name() {
    let mut m = EngineInputManager::new();
    m.set_initial_numeric("with\0nul", bits(1.0));
    assert_eq!(m.get_numeric("with\0nul"), Some(bits(1.0)));
}
