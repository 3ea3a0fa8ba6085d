use dotlottie::state_machine::definition::{dot_string, string_bool, StringBool};
use dotlottie::theming::{JsonNumber, JsonValue};

#[test]
fn names_are_strings_without_nul() {
    let d = dot_string(&JsonValue::String("idle".to_string())).unwrap();
    assert_eq!(d.as_str(), "idle");
    assert!(dot_string(&JsonValue::String("a\0b".to_string())).is_none());
    assert!(dot_string(&JsonValue::Bool(true)).is_none());
    assert!(dot_string(&JsonValue::Number(JsonNumber::PosInt(1))).is_none());
}

#[test]
fn string_or_bool_values() {
    assert_eq!(string_bool(&JsonValue::String("$on".to_string())), Some(StringBool::String("$on".to_string())));
    assert_eq!(string_bool(&JsonValue::Bool(false)), Some(StringBool::Bool(false)));
    assert_eq!(string_bool(&JsonValue::Null), None);
    assert_eq!(string_bool(&JsonValue::Number(JsonNumber::PosInt(1))), None);
}
