use dotlottie::theming::{
    handle_generic_keyframe, handle_gradient_slot, handle_image_slot, handle_other_slot_types,
    handle_scalar_slot, lottie_slots, should_process_rule, theme_is_transformable, JsonNumber, JsonValue,
    ThemeSlotsError,
};

fn s(t: &str) -> JsonValue {
    JsonValue::String(t.to_string())
}

fn u(n: u64) -> JsonValue {
    JsonValue::Number(JsonNumber::PosInt(n))
}

fn f(x: f64) -> JsonValue {
    JsonValue::Number(JsonNumber::Float(x.to_bits()))
}

fn arr(items: Vec<JsonValue>) -> JsonValue {
    JsonValue::Array(items)
}

fn obj(fields: Vec<(&str, JsonValue)>) -> JsonValue {
    JsonValue::Object(fields.into_iter().map(|(k, v)| (k.to_string(), v)).collect())
}

/// Compact JSON text, fields in their order; floating-point numbers always
/// show a fraction, as `serde_json` writes them.
fn render(v: &JsonValue) -> String {
    match v {
        JsonValue::Null => "null".to_string(),
        JsonValue::Bool(b) => b.to_string(),
        JsonValue::Number(JsonNumber::PosInt(n)) => n.to_string(),
        JsonValue::Number(JsonNumber::NegInt(n)) => n.to_string(),
        JsonValue::Number(JsonNumber::Float(bits)) => format!("{:?}", f64::from_bits(*bits)),
        JsonValue::Number(JsonNumber::FloatOfInt(k)) => format!("{:?}", *k as f64),
        JsonValue::String(t) => format!("\"{}\"", t),
        JsonValue::Array(items) => {
            format!("[{}]", items.iter().map(render).collect::<Vec<_>>().join(","))
        }
        JsonValue::Object(fields) => format!(
            "{{{}}}",
            fields
                .iter()
                .map(|(k, v)| format!("\"{}\":{}", k, render(v)))
                .collect::<Vec<_>>()
                .join(",")
        ),
    }
}

#[test]
fn image_rule_gives_size_path_and_file_name() {
    let rule = obj(vec![
        ("id", s("img")),
        ("type", s("Image")),
        ("value", obj(vec![("width", u(100)), ("height", u(50)), ("path", s("images/logo.png"))])),
    ]);
    assert_eq!(
        render(&handle_image_slot(&rule)),
        r#"{"w":100,"h":50,"u":"images/logo.png","p":"logo.png","e":0}"#
    );
}

#[test]
fn image_data_url_replaces_the_file_name() {
    let rule = obj(vec![(
        "value",
        obj(vec![("path", s("a/b.png")), ("dataUrl", s("data:image/png;base64,xyz")), ("width", f(1.5))]),
    )]);
    // A fractional width is not a non-negative integer and is left out.
    assert_eq!(
        render(&handle_image_slot(&rule)),
        r#"{"u":"a/b.png","p":"data:image/png;base64,xyz","e":1}"#
    );
    assert_eq!(render(&handle_image_slot(&obj(vec![("value", s("x"))]))), "{}");
}

#[test]
fn static_gradient_writes_colors_then_opacities() {
    let rule = obj(vec![(
        "value",
        arr(vec![
            obj(vec![("offset", u(0)), ("color", arr(vec![u(1), u(0), u(0)]))]),
            obj(vec![("offset", u(1)), ("color", arr(vec![u(0), u(0), u(1), f(0.5)]))]),
        ]),
    )]);
    assert_eq!(
        render(&handle_gradient_slot(&rule)),
        r#"{"k":{"a":0,"k":[0.0,1.0,0.0,0.0,1.0,0.0,0.0,1.0,0.0,1.0,1.0,0.5]},"p":2}"#
    );
}

#[test]
fn gradient_without_alpha_has_no_opacities() {
    let rule = obj(vec![(
        "value",
        arr(vec![
            obj(vec![("offset", f(0.25)), ("color", arr(vec![u(1), s("x"), u(0)]))]),
            obj(vec![("color", arr(vec![u(1), u(1), u(1)]))]),
        ]),
    )]);
    // A color component that is not a number becomes 0.0; a stop without an
    // offset is skipped, but still counted in `p`.
    assert_eq!(render(&handle_gradient_slot(&rule)), r#"{"k":{"a":0,"k":[0.25,1.0,0.0,0.0]},"p":2}"#);
}

#[test]
fn animated_gradient_counts_the_first_keyframe_stops() {
    let kf = obj(vec![
        ("frame", u(10)),
        ("value", arr(vec![obj(vec![("offset", u(0)), ("color", arr(vec![u(1), u(1), u(1)]))])])),
        ("inTangent", obj(vec![("x", u(1)), ("y", u(2))])),
        ("outTangent", obj(vec![("x", u(3))])),
        ("hold", JsonValue::Bool(true)),
    ]);
    let rule = obj(vec![("keyframes", arr(vec![kf]))]);
    assert_eq!(
        render(&handle_gradient_slot(&rule)),
        r#"{"k":{"a":1,"k":[{"t":10,"s":[0.0,1.0,1.0,1.0],"i":{"x":1,"y":2},"h":1}]},"p":1}"#
    );
}

#[test]
fn scalar_slot_from_value_or_keyframes() {
    let rule = obj(vec![("value", u(3))]);
    assert_eq!(render(&handle_scalar_slot(&rule)), r#"{"a":0,"k":[3.0]}"#);
    let rule = obj(vec![(
        "keyframes",
        arr(vec![
            obj(vec![("frame", u(0)), ("value", f(1.5)), ("valueInTangent", arr(vec![u(1)]))]),
            obj(vec![("frame", u(5)), ("value", s("no")), ("hold", JsonValue::Bool(false))]),
        ]),
    )]);
    assert_eq!(
        render(&handle_scalar_slot(&rule)),
        r#"{"a":1,"k":[{"t":0,"s":[1.5],"ti":[1]},{"t":5,"h":0}]}"#
    );
    assert_eq!(render(&handle_scalar_slot(&obj(vec![]))), "{}");
}

#[test]
fn other_slot_unwraps_a_single_keyframe() {
    let kf = obj(vec![("frame", u(1)), ("value", arr(vec![u(1), u(2)])), ("valueOutTangent", arr(vec![]))]);
    assert_eq!(render(&handle_generic_keyframe(&kf)), r#"{"t":1,"s":[1,2],"to":[]}"#);
    let rule = obj(vec![("keyframes", arr(vec![kf]))]);
    assert_eq!(render(&handle_other_slot_types(&rule)), r#"{"a":0,"k":{"t":1,"s":[1,2],"to":[]}}"#);
    let two = obj(vec![(
        "keyframes",
        arr(vec![obj(vec![("frame", u(1))]), obj(vec![("frame", u(2))])]),
    )]);
    assert_eq!(render(&handle_other_slot_types(&two)), r#"{"a":1,"k":[{"t":1},{"t":2}]}"#);
    let value = obj(vec![("value", arr(vec![u(4), f(0.5)]))]);
    assert_eq!(render(&handle_other_slot_types(&value)), r#"{"a":0,"k":[4,0.5]}"#);
}

#[test]
fn rules_apply_to_listed_animations_only() {
    let all = obj(vec![("id", s("a"))]);
    assert!(should_process_rule(&all, "anything"));
    let listed = obj(vec![("animations", arr(vec![s("one"), s("two")]))]);
    assert!(should_process_rule(&listed, "two"));
    assert!(!should_process_rule(&listed, "three"));
    let broken = obj(vec![("animations", s("one"))]);
    assert!(!should_process_rule(&broken, "one"));
}

#[test]
fn later_rules_replace_earlier_ones_with_the_same_id() {
    let theme = obj(vec![(
        "rules",
        arr(vec![
            obj(vec![("id", s("x")), ("type", s("Scalar")), ("value", u(1))]),
            obj(vec![("id", s("y")), ("type", s("Color")), ("value", arr(vec![u(1), u(0), u(0)]))]),
            obj(vec![("id", s("x")), ("type", s("Scalar")), ("value", u(2))]),
            obj(vec![
                ("id", s("z")),
                ("type", s("Scalar")),
                ("value", u(9)),
                ("animations", arr(vec![s("other")])),
            ]),
        ]),
    )]);
    assert!(theme_is_transformable(&theme, "main"));
    let slots = lottie_slots(&theme, "main").unwrap();
    let rendered: Vec<String> = slots.iter().map(|(k, v)| format!("{}={}", k, render(v))).collect();
    assert_eq!(
        rendered,
        vec![
            r#"x={"p":{"a":0,"k":[2.0]}}"#.to_string(),
            r#"y={"p":{"a":0,"k":[1,0,0]}}"#.to_string(),
        ]
    );
}

#[test]
fn theme_without_rules_array_is_refused() {
    assert_eq!(lottie_slots(&obj(vec![]), "a").err(), Some(ThemeSlotsError::InvalidRules));
    assert_eq!(
        lottie_slots(&obj(vec![("rules", s("nope"))]), "a").err(),
        Some(ThemeSlotsError::InvalidRules)
    );
    let empty = lottie_slots(&obj(vec![("rules", arr(vec![]))]), "a").unwrap();
    assert!(empty.is_empty());
}

#[test]
fn empty_keyframes_are_flagged_before_transformation() {
    let theme = obj(vec![(
        "rules",
        arr(vec![obj(vec![("id", s("g")), ("type", s("Gradient")), ("keyframes", arr(vec![]))])]),
    )]);
    assert!(!theme_is_transformable(&theme, "a"));
    let scalar = obj(vec![(
        "rules",
        arr(vec![obj(vec![("id", s("g")), ("type", s("Scalar")), ("keyframes", arr(vec![]))])]),
    )]);
    assert!(theme_is_transformable(&scalar, "a"));
    assert_eq!(
        render(&lottie_slots(&scalar, "a").unwrap()[0].1),
        r#"{"p":{"a":1,"k":[]}}"#
    );
}
