use dotlottie::theme::{
    image_rule_from_json, opt_animations, opt_expression, rule_id, string_list, ImageRule, ImageValue,
};
use dotlottie::theming::{JsonNumber, JsonValue};

fn s(t: &str) -> JsonValue {
    JsonValue::String(t.to_string())
}

fn u(n: u64) -> JsonValue {
    JsonValue::Number(JsonNumber::PosInt(n))
}

fn arr(items: Vec<JsonValue>) -> JsonValue {
    JsonValue::Array(items)
}

fn obj(fields: Vec<(&str, JsonValue)>) -> JsonValue {
    JsonValue::Object(fields.into_iter().map(|(k, v)| (k.to_string(), v)).collect())
}

#[test]
fn image_rule_requires_src() {
    let v = obj(vec![("type", s("Image")), ("id", s("logo")), ("value", obj(vec![]))]);
    assert!(image_rule_from_json(&v).is_none(), "no src must be rejected");
}

#[test]
fn image_rule_reads_source_and_dimensions() {
    let v = obj(vec![
        ("type", s("Image")),
        ("id", s("logo")),
        ("value", obj(vec![("src", s("logo.png")), ("width", u(200)), ("height", u(100))])),
    ]);
    assert_eq!(
        image_rule_from_json(&v),
        Some(ImageRule {
            id: "logo".to_string(),
            animations: None,
            value: ImageValue { src: "logo.png".to_string(), width: Some(200), height: Some(100) },
        })
    );
    let v = obj(vec![
        ("id", s("logo")),
        ("animations", arr(vec![s("a1"), s("a2")])),
        ("value", obj(vec![("src", s("data:image/png;base64,AAAA"))])),
    ]);
    assert_eq!(
        image_rule_from_json(&v),
        Some(ImageRule {
            id: "logo".to_string(),
            animations: Some(vec!["a1".to_string(), "a2".to_string()]),
            value: ImageValue { src: "data:image/png;base64,AAAA".to_string(), width: None, height: None },
        })
    );
}

#[test]
fn image_rule_rejects_malformed_fields() {
    let with_value = |value: JsonValue| obj(vec![("id", s("logo")), ("value", value)]);
    // Dimensions must be non-negative integers that fit in 32 bits.
    assert!(image_rule_from_json(&with_value(obj(vec![("src", s("a")), ("width", u(1 << 32))]))).is_none());
    assert!(image_rule_from_json(&with_value(obj(vec![("src", s("a")), ("height", s("10"))]))).is_none());
    assert!(image_rule_from_json(&with_value(obj(vec![("src", u(1))]))).is_none());
    assert!(image_rule_from_json(&obj(vec![("value", obj(vec![("src", s("a"))]))])).is_none());
    assert!(image_rule_from_json(&obj(vec![("id", s("logo"))])).is_none());
    let bad_animations = obj(vec![
        ("id", s("logo")),
        ("animations", arr(vec![s("a1"), u(2)])),
        ("value", obj(vec![("src", s("a"))])),
    ]);
    assert!(image_rule_from_json(&bad_animations).is_none());
    let max = image_rule_from_json(&with_value(obj(vec![("src", s("a")), ("width", u(u32::MAX as u64))])));
    assert_eq!(max.unwrap().value.width, Some(u32::MAX));
}

#[test]
fn shared_rule_fields() {
    let v = obj(vec![("id", s("c")), ("expression", s("x")), ("animations", arr(vec![]))]);
    assert_eq!(rule_id(&v), Some("c".to_string()));
    assert_eq!(opt_expression(&v), Some(Some("x".to_string())));
    assert_eq!(opt_animations(&v), Some(Some(vec![])));
    let empty = obj(vec![]);
    assert_eq!(rule_id(&empty), None);
    assert_eq!(opt_expression(&empty), Some(None));
    assert_eq!(opt_animations(&empty), Some(None));
    let wrong = obj(vec![("id", u(1)), ("expression", u(1)), ("animations", s("a1"))]);
    assert_eq!(rule_id(&wrong), None);
    assert_eq!(opt_expression(&wrong), None);
    assert_eq!(opt_animations(&wrong), None);
    assert_eq!(rule_id(&s("c")), None);
    assert_eq!(string_list(&arr(vec![s("a"), s("b")])), Some(vec!["a".to_string(), "b".to_string()]));
    assert_eq!(string_list(&arr(vec![s("a"), JsonValue::Null])), None);
    assert_eq!(string_list(&s("a")), None);
}
