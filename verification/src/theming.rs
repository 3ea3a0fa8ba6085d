//! Transforming a theme into Lottie slot values.
//!
//! A theme is JSON with a `rules` array; each rule that applies to the active
//! animation becomes one slot, keyed by the rule's `id`, whose `p` property
//! is built from the rule according to its `type` (`Image`, `Gradient`,
//! `Scalar`, or any other). Reading the text and writing the result are left
//! to the host; this module works on JSON values.
//!
//! Numbers are kept as JSON holds them: non-negative and negative integers,
//! and floating-point numbers by their IEEE-754 bit pattern. Where the
//! transformation reads a number as a floating-point value and writes it back
//! (`as_f64` followed by a float), an integer becomes `FloatOfInt`: the
//! double nearest to that integer, which the host computes when it writes the
//! value out.
use vstd::prelude::*;

use crate::text::{chars_eq, chars_of, same_text, slice_chars, string_of};

verus! {

/// A JSON number.
#[derive(Debug, Clone, Copy, PartialEq, Eq, Structural)]
pub enum JsonNumber {
    /// A non-negative integer.
    PosInt(u64),
    /// A negative integer.
    NegInt(i64),
    /// A floating-point number, by the bit pattern of its `f64`.
    Float(u64),
    /// The floating-point number nearest to this integer.
    FloatOfInt(i128),
}

/// A JSON value. Object fields keep their order; a field name occurs once.
#[derive(Debug)]
pub enum JsonValue {
    Null,
    Bool(bool),
    Number(JsonNumber),
    String(String),
    Array(Vec<JsonValue>),
    Object(Vec<(String, JsonValue)>),
}

/// A JSON value as a mathematical value.
#[verifier::ext_equal]
pub ghost enum Json {
    Null,
    Bool(bool),
    Number(JsonNumber),
    String(Seq<char>),
    Array(Seq<Json>),
    Object(Seq<(Seq<char>, Json)>),
}

/// The mathematical value of a JSON value.
pub open spec fn json_of(v: JsonValue) -> Json
    decreases v,
    via json_of_decreases
{
    match v {
        JsonValue::Null => Json::Null,
        JsonValue::Bool(b) => Json::Bool(b),
        JsonValue::Number(n) => Json::Number(n),
        JsonValue::String(s) => Json::String(s@),
        JsonValue::Array(items) => Json::Array(
            Seq::new(
                items@.len(),
                |i: int|
                    if 0 <= i < items@.len() {
                        json_of(items@[i])
                    } else {
                        Json::Null
                    },
            ),
        ),
        JsonValue::Object(fields) => Json::Object(
            Seq::new(
                fields@.len(),
                |i: int|
                    if 0 <= i < fields@.len() {
                        (fields@[i].0@, json_of(fields@[i].1))
                    } else {
                        (Seq::empty(), Json::Null)
                    },
            ),
        ),
    }
}

#[via_fn]
proof fn json_of_decreases(v: JsonValue) {
    match v {
        JsonValue::Array(items) => {
            assert forall|i: int| 0 <= i < items@.len() implies #[trigger] decreases_to!(v => items@[i]) by {
                assert(decreases_to!(v => items));
                assert(decreases_to!(items => items@));
                assert(decreases_to!(items@ => items@[i]));
            }
        },
        JsonValue::Object(fields) => {
            assert forall|i: int| 0 <= i < fields@.len() implies #[trigger] decreases_to!(v => fields@[i].1) by {
                assert(decreases_to!(v => fields));
                assert(decreases_to!(fields => fields@));
                assert(decreases_to!(fields@ => fields@[i]));
                assert(decreases_to!(fields@[i] => fields@[i].1));
            }
        },
        _ => {},
    }
}

// ---------------------------------------------------------------------------
// Reading JSON, as `serde_json::Value` does

/// The first field named `key`, if any.
pub open spec fn lookup(fields: Seq<(Seq<char>, Json)>, key: Seq<char>) -> Option<Json>
    decreases fields.len(),
{
    if fields.len() == 0 {
        None
    } else if fields[0].0 == key {
        Some(fields[0].1)
    } else {
        lookup(fields.drop_first(), key)
    }
}

/// The field `key` of an object (`Value::get`); nothing for a missing field
/// or a value that is not an object.
pub open spec fn get(v: Json, key: Seq<char>) -> Option<Json> {
    match v {
        Json::Object(fields) => lookup(fields, key),
        _ => None,
    }
}

/// `v[key]`: the field `key`, or null when there is none.
pub open spec fn index(v: Json, key: Seq<char>) -> Json {
    match get(v, key) {
        Some(x) => x,
        None => Json::Null,
    }
}

/// The items of an array.
pub open spec fn as_array(v: Json) -> Option<Seq<Json>> {
    match v {
        Json::Array(items) => Some(items),
        _ => None,
    }
}

/// The fields of an object.
pub open spec fn as_object(v: Json) -> Option<Seq<(Seq<char>, Json)>> {
    match v {
        Json::Object(fields) => Some(fields),
        _ => None,
    }
}

/// The text of a string.
pub open spec fn as_str(v: Json) -> Option<Seq<char>> {
    match v {
        Json::String(s) => Some(s),
        _ => None,
    }
}

/// The value of a boolean.
pub open spec fn as_bool(v: Json) -> Option<bool> {
    match v {
        Json::Bool(b) => Some(b),
        _ => None,
    }
}

/// A non-negative integer (`Value::as_u64`): only integers written without a
/// fraction or exponent qualify.
pub open spec fn as_u64(v: Json) -> Option<u64> {
    match v {
        Json::Number(JsonNumber::PosInt(u)) => Some(u),
        _ => None,
    }
}

/// A number read as a floating-point value (`Value::as_f64`), as the number
/// it is written back as.
pub open spec fn as_f64(v: Json) -> Option<JsonNumber> {
    match v {
        Json::Number(n) => Some(
            match n {
                JsonNumber::PosInt(u) => JsonNumber::FloatOfInt(u as i128),
                JsonNumber::NegInt(i) => JsonNumber::FloatOfInt(i as i128),
                JsonNumber::Float(bits) => JsonNumber::Float(bits),
                JsonNumber::FloatOfInt(k) => JsonNumber::FloatOfInt(k),
            },
        ),
        _ => None,
    }
}

/// `fields` with `key` set to `value`: the first field of that name gets the
/// value, or a field is appended (`value[key] = ..`).
pub open spec fn with_field(fields: Seq<(Seq<char>, Json)>, key: Seq<char>, value: Json) -> Seq<
    (Seq<char>, Json),
>
    decreases fields.len(),
{
    if fields.len() == 0 {
        seq![(key, value)]
    } else if fields[0].0 == key {
        fields.update(0, (key, value))
    } else {
        seq![fields[0]] + with_field(fields.drop_first(), key, value)
    }
}

/// The same value, copied.
pub fn copy_json(v: &JsonValue) -> (r: JsonValue)
    ensures
        json_of(r) == json_of(*v),
    decreases v,
{
    match v {
        JsonValue::Null => JsonValue::Null,
        JsonValue::Bool(b) => JsonValue::Bool(*b),
        JsonValue::Number(n) => JsonValue::Number(*n),
        JsonValue::String(s) => JsonValue::String(s.clone()),
        JsonValue::Array(items) => {
            let mut copied: Vec<JsonValue> = Vec::new();
            for i in 0..items.len()
                invariant
                    *v == JsonValue::Array(*items),
                    copied@.len() == i,
                    forall|j: int| 0 <= j < i ==> json_of(#[trigger] copied@[j]) == json_of(items@[j]),
            {
                proof {
                    let ghost inner = (*v)->Array_0;
                    assert(decreases_to!(*v => (*v)->Array_0));
                    assert(decreases_to!(inner => inner@));
                    assert(decreases_to!(inner@ => inner@[i as int]));
                    assert(inner@[i as int] == items@[i as int]);
                }
                copied.push(copy_json(&items[i]));
            }
            let r = JsonValue::Array(copied);
            assert(json_of(r)->Array_0 =~= json_of(*v)->Array_0);
            r
        },
        JsonValue::Object(fields) => {
            let mut copied: Vec<(String, JsonValue)> = Vec::new();
            for i in 0..fields.len()
                invariant
                    *v == JsonValue::Object(*fields),
                    copied@.len() == i,
                    forall|j: int|
                        0 <= j < i ==> (#[trigger] copied@[j]).0@ == fields@[j].0@ && json_of(
                            copied@[j].1,
                        ) == json_of(fields@[j].1),
            {
                proof {
                    let ghost inner = (*v)->Object_0;
                    assert(decreases_to!(*v => (*v)->Object_0));
                    assert(decreases_to!(inner => inner@));
                    assert(decreases_to!(inner@ => inner@[i as int]));
                    assert(decreases_to!(inner@[i as int] => inner@[i as int].1));
                    assert(inner@[i as int] == fields@[i as int]);
                }
                let (k, x) = &fields[i];
                copied.push((k.clone(), copy_json(x)));
            }
            let r = JsonValue::Object(copied);
            assert(json_of(r)->Object_0 =~= json_of(*v)->Object_0);
            r
        },
    }
}

/// The mathematical values of a list of JSON values.
pub open spec fn jsons(s: Seq<JsonValue>) -> Seq<Json> {
    Seq::new(s.len(), |i: int| json_of(s[i]))
}

/// The mathematical values of a list of object fields.
pub open spec fn fields_json(s: Seq<(String, JsonValue)>) -> Seq<(Seq<char>, Json)> {
    Seq::new(s.len(), |i: int| (s[i].0@, json_of(s[i].1)))
}

/// An array's value is made of its items' values.
pub proof fn lemma_array_json(items: Vec<JsonValue>)
    ensures
        json_of(JsonValue::Array(items)) == Json::Array(jsons(items@)),
{
    assert(json_of(JsonValue::Array(items))->Array_0 =~= jsons(items@));
}

/// An object's value is made of its fields' values.
pub proof fn lemma_object_json(fields: Vec<(String, JsonValue)>)
    ensures
        json_of(JsonValue::Object(fields)) == Json::Object(fields_json(fields@)),
{
    assert(json_of(JsonValue::Object(fields))->Object_0 =~= fields_json(fields@));
}

/// Past fields that do not carry `key`, the lookup goes on in the rest.
proof fn lemma_lookup_skip(s: Seq<(Seq<char>, Json)>, key: Seq<char>, i: int)
    requires
        0 <= i <= s.len(),
        forall|j: int| 0 <= j < i ==> s[j].0 != key,
    ensures
        lookup(s, key) == lookup(s.skip(i), key),
    decreases i,
{
    if i > 0 {
        let t = s.drop_first();
        assert forall|j: int| 0 <= j < i - 1 implies t[j].0 != key by {
            assert(t[j] == s[j + 1]);
        }
        lemma_lookup_skip(t, key, i - 1);
        assert(t.skip(i - 1) =~= s.skip(i));
    } else {
        assert(s.skip(0) =~= s);
    }
}

/// Setting a field replaces the first field of that name, or appends one.
proof fn lemma_with_field(s: Seq<(Seq<char>, Json)>, key: Seq<char>, value: Json, i: int)
    requires
        0 <= i <= s.len(),
        forall|j: int| 0 <= j < i ==> s[j].0 != key,
        i == s.len() || s[i].0 == key,
    ensures
        with_field(s, key, value) == if i == s.len() {
            s.push((key, value))
        } else {
            s.update(i, (key, value))
        },
    decreases i,
{
    if i > 0 {
        let t = s.drop_first();
        assert forall|j: int| 0 <= j < i - 1 implies t[j].0 != key by {
            assert(t[j] == s[j + 1]);
        }
        lemma_with_field(t, key, value, i - 1);
        if i == s.len() {
            assert(seq![s[0]] + t.push((key, value)) =~= s.push((key, value)));
        } else {
            assert(seq![s[0]] + t.update(i - 1, (key, value)) =~= s.update(i, (key, value)));
        }
    } else if s.len() == 0 {
        assert(seq![(key, value)] =~= s.push((key, value)));
    }
}

/// The field `key` of `v` (see `get`).
pub fn field<'a>(v: &'a JsonValue, key: &str) -> (r: Option<&'a JsonValue>)
    ensures
        match r {
            Some(x) => get(json_of(*v), key@) == Some(json_of(*x)),
            None => get(json_of(*v), key@) is None,
        },
{
    match v {
        JsonValue::Object(fields) => {
            proof {
                lemma_object_json(*fields);
            }
            let ghost fs = fields_json(fields@);
            for i in 0..fields.len()
                invariant
                    fs == fields_json(fields@),
                    json_of(*v) == Json::Object(fs),
                    forall|j: int| 0 <= j < i ==> fs[j].0 != key@,
            {
                if same_text(fields[i].0.as_str(), key) {
                    proof {
                        lemma_lookup_skip(fs, key@, i as int);
                        assert(fs[i as int] == (fields@[i as int].0@, json_of(fields@[i as int].1)));
                        assert(fs.skip(i as int)[0] == fs[i as int]);
                        assert(lookup(fs.skip(i as int), key@) == Some(fs[i as int].1));
                    }
                    return Some(&fields[i].1);
                }
            }
            proof {
                lemma_lookup_skip(fs, key@, fs.len() as int);
            }
            None
        },
        _ => None,
    }
}

/// The items of an array value.
pub fn items_of(v: &JsonValue) -> (r: Option<&Vec<JsonValue>>)
    ensures
        match r {
            Some(items) => as_array(json_of(*v)) == Some(jsons(items@)),
            None => as_array(json_of(*v)) is None,
        },
{
    match v {
        JsonValue::Array(items) => {
            proof {
                lemma_array_json(*items);
            }
            Some(items)
        },
        _ => None,
    }
}

/// The fields of an object value.
pub fn fields_of(v: &JsonValue) -> (r: Option<&Vec<(String, JsonValue)>>)
    ensures
        match r {
            Some(fields) => as_object(json_of(*v)) == Some(fields_json(fields@)),
            None => as_object(json_of(*v)) is None,
        },
{
    match v {
        JsonValue::Object(fields) => {
            proof {
                lemma_object_json(*fields);
            }
            Some(fields)
        },
        _ => None,
    }
}

/// The text of a string value.
pub fn text_of(v: &JsonValue) -> (r: Option<&str>)
    ensures
        match r {
            Some(t) => as_str(json_of(*v)) == Some(t@),
            None => as_str(json_of(*v)) is None,
        },
{
    match v {
        JsonValue::String(s) => Some(s.as_str()),
        _ => None,
    }
}

/// The value of a boolean.
pub fn bool_of(v: &JsonValue) -> (r: Option<bool>)
    ensures
        r == as_bool(json_of(*v)),
{
    match v {
        JsonValue::Bool(b) => Some(*b),
        _ => None,
    }
}

/// A non-negative integer (see `as_u64`).
pub fn u64_of(v: &JsonValue) -> (r: Option<u64>)
    ensures
        r == as_u64(json_of(*v)),
{
    match v {
        JsonValue::Number(JsonNumber::PosInt(u)) => Some(*u),
        _ => None,
    }
}

/// A number read as a floating-point value (see `as_f64`).
pub fn f64_of(v: &JsonValue) -> (r: Option<JsonNumber>)
    ensures
        r == as_f64(json_of(*v)),
{
    match v {
        JsonValue::Number(n) => Some(
            match n {
                JsonNumber::PosInt(u) => JsonNumber::FloatOfInt(*u as i128),
                JsonNumber::NegInt(i) => JsonNumber::FloatOfInt(*i as i128),
                JsonNumber::Float(bits) => JsonNumber::Float(*bits),
                JsonNumber::FloatOfInt(k) => JsonNumber::FloatOfInt(*k),
            },
        ),
        _ => None,
    }
}

/// Where the first field named `key` is, if any.
fn position_of(fields: &Vec<(String, JsonValue)>, key: &str) -> (r: Option<usize>)
    ensures
        match r {
            Some(i) => i < fields@.len() && fields@[i as int].0@ == key@ && forall|j: int|
                0 <= j < i ==> fields@[j].0@ != key@,
            None => forall|j: int| 0 <= j < fields@.len() ==> fields@[j].0@ != key@,
        },
{
    for i in 0..fields.len()
        invariant
            forall|j: int| 0 <= j < i ==> fields@[j].0@ != key@,
    {
        if same_text(fields[i].0.as_str(), key) {
            return Some(i);
        }
    }
    None
}

/// Set field `key` of an object under construction (see `with_field`).
pub fn set_field(fields: &mut Vec<(String, JsonValue)>, key: &str, value: JsonValue)
    ensures
        fields_json(final(fields)@) == with_field(fields_json(old(fields)@), key@, json_of(value)),
{
    let ghost fs = fields_json(fields@);
    let ghost jv = json_of(value);
    match position_of(fields, key) {
        Some(i) => {
            proof {
                lemma_with_field(fs, key@, jv, i as int);
            }
            fields.remove(i);
            fields.insert(i, (key.to_owned(), value));
            assert(fields_json(fields@) =~= fs.update(i as int, (key@, jv)));
        },
        None => {
            proof {
                lemma_with_field(fs, key@, jv, fs.len() as int);
            }
            fields.push((key.to_owned(), value));
            assert(fields_json(fields@) =~= fs.push((key@, jv)));
        },
    }
}

// ---------------------------------------------------------------------------
// What the transformation produces

/// A non-negative integer.
pub open spec fn num(u: u64) -> Json {
    Json::Number(JsonNumber::PosInt(u))
}

/// `0.0` (the bit pattern of the `f64` zero).
pub open spec fn float_zero() -> JsonNumber {
    JsonNumber::Float(0)
}

/// `1.0` (the bit pattern of the `f64` one).
pub open spec fn float_one() -> JsonNumber {
    JsonNumber::Float(0x3FF0_0000_0000_0000)
}

/// No fields.
pub open spec fn no_fields() -> Seq<(Seq<char>, Json)> {
    Seq::empty()
}

/// Field `key` of `obj` read as a non-negative integer.
pub open spec fn u64_field(obj: Json, key: Seq<char>) -> Option<u64> {
    match get(obj, key) {
        Some(x) => as_u64(x),
        None => None,
    }
}

/// Field `key` of `obj` read as text.
pub open spec fn str_field(obj: Json, key: Seq<char>) -> Option<Seq<char>> {
    match get(obj, key) {
        Some(x) => as_str(x),
        None => None,
    }
}

/// The last `/`-separated piece of `s` (all of it when it has no `/`).
pub open spec fn last_segment(s: Seq<char>) -> Seq<char>
    decreases s.len(),
{
    if s.len() == 0 {
        s
    } else if s.last() == '/' {
        Seq::empty()
    } else {
        last_segment(s.drop_last()).push(s.last())
    }
}

/// Whether a rule applies to the animation `active`: a rule without an
/// `animations` field applies to every animation; otherwise the field must be
/// an array that names `active`.
pub open spec fn should_process(rule: Json, active: Seq<char>) -> bool {
    get(rule, "animations"@) is None || match as_array(index(rule, "animations"@)) {
        Some(names) => exists|i: int| 0 <= i < names.len() && names[i] == Json::String(active),
        None => false,
    }
}

/// An image rule's slot: width `w`, height `h`; from a `path`, the path `u`,
/// its file name `p` and `e` 0; from a `dataUrl`, the data in `p` and `e` 1.
pub open spec fn image_slot(rule: Json) -> Json {
    let value = index(rule, "value"@);
    match as_object(value) {
        None => Json::Object(no_fields()),
        Some(_) => {
            let f1 = match u64_field(value, "width"@) {
                Some(w) => with_field(no_fields(), "w"@, num(w)),
                None => no_fields(),
            };
            let f2 = match u64_field(value, "height"@) {
                Some(h) => with_field(f1, "h"@, num(h)),
                None => f1,
            };
            let f3 = match str_field(value, "path"@) {
                Some(path) => with_field(
                    with_field(with_field(f2, "u"@, Json::String(path)), "p"@, Json::String(last_segment(path))),
                    "e"@,
                    num(0),
                ),
                None => f2,
            };
            let f4 = match str_field(value, "dataUrl"@) {
                Some(data) => with_field(with_field(f3, "p"@, Json::String(data)), "e"@, num(1)),
                None => f3,
            };
            Json::Object(f4)
        },
    }
}

/// An image rule's slot: the width in `w` and the height in `h`; a `path`
/// gives its text in `u`; the picture in `p` is the data of a `dataUrl`, or
/// else the file name of the path; `e` says which (1 for embedded data, 0
/// for a path).
pub proof fn law_image_slot_fields(rule: Json)
    requires
        as_object(index(rule, "value"@)) is Some,
    ensures
        ({
            let value = index(rule, "value"@);
            let slot = image_slot(rule);
            &&& get(slot, "w"@) == match u64_field(value, "width"@) {
                Some(w) => Some(num(w)),
                None => None,
            }
            &&& get(slot, "h"@) == match u64_field(value, "height"@) {
                Some(h) => Some(num(h)),
                None => None,
            }
            &&& get(slot, "u"@) == match str_field(value, "path"@) {
                Some(path) => Some(Json::String(path)),
                None => None,
            }
            &&& get(slot, "p"@) == match (str_field(value, "dataUrl"@), str_field(value, "path"@)) {
                (Some(data), _) => Some(Json::String(data)),
                (None, Some(path)) => Some(Json::String(last_segment(path))),
                (None, None) => None,
            }
            &&& get(slot, "e"@) == match (str_field(value, "dataUrl"@), str_field(value, "path"@)) {
                (Some(_), _) => Some(num(1)),
                (None, Some(_)) => Some(num(0)),
                (None, None) => None,
            }
        }),
{
    reveal_strlit("w");
    reveal_strlit("h");
    reveal_strlit("u");
    reveal_strlit("p");
    reveal_strlit("e");
    assert("w"@[0] == 'w' && "h"@[0] == 'h' && "u"@[0] == 'u' && "p"@[0] == 'p' && "e"@[0] == 'e');
    let value = index(rule, "value"@);
    let f1 = match u64_field(value, "width"@) {
        Some(w) => with_field(no_fields(), "w"@, num(w)),
        None => no_fields(),
    };
    let f2 = match u64_field(value, "height"@) {
        Some(h) => with_field(f1, "h"@, num(h)),
        None => f1,
    };
    if u64_field(value, "width"@) is Some {
        lemma_lookup_with_field(no_fields(), "w"@, num(u64_field(value, "width"@)->0));
    }
    if u64_field(value, "height"@) is Some {
        lemma_lookup_with_field(f1, "h"@, num(u64_field(value, "height"@)->0));
    }
    let f3 = match str_field(value, "path"@) {
        Some(path) => with_field(
            with_field(with_field(f2, "u"@, Json::String(path)), "p"@, Json::String(last_segment(path))),
            "e"@,
            num(0),
        ),
        None => f2,
    };
    if str_field(value, "path"@) is Some {
        let path = str_field(value, "path"@)->0;
        lemma_lookup_with_field(f2, "u"@, Json::String(path));
        lemma_lookup_with_field(with_field(f2, "u"@, Json::String(path)), "p"@, Json::String(last_segment(path)));
        lemma_lookup_with_field(
            with_field(with_field(f2, "u"@, Json::String(path)), "p"@, Json::String(last_segment(path))),
            "e"@,
            num(0),
        );
    }
    if str_field(value, "dataUrl"@) is Some {
        let data = str_field(value, "dataUrl"@)->0;
        lemma_lookup_with_field(f3, "p"@, Json::String(data));
        lemma_lookup_with_field(with_field(f3, "p"@, Json::String(data)), "e"@, num(1));
    }
    assert(lookup(no_fields(), "w"@) is None);
    assert(lookup(no_fields(), "h"@) is None);
    assert(lookup(no_fields(), "u"@) is None);
    assert(lookup(no_fields(), "p"@) is None);
    assert(lookup(no_fields(), "e"@) is None);
}

/// `fields` with `to` set to the `{x, y}` of the tangent object `kf[from]`,
/// when it has both.
pub open spec fn with_tangent(
    fields: Seq<(Seq<char>, Json)>,
    kf: Json,
    from: Seq<char>,
    to: Seq<char>,
) -> Seq<(Seq<char>, Json)> {
    let t = index(kf, from);
    match (as_object(t), get(t, "x"@), get(t, "y"@)) {
        (Some(_), Some(x), Some(y)) => with_field(
            fields,
            to,
            Json::Object(with_field(with_field(no_fields(), "x"@, x), "y"@, y)),
        ),
        _ => fields,
    }
}

/// `fields` with `to` set to a copy of the array `kf[from]`, when it is one.
pub open spec fn with_array(fields: Seq<(Seq<char>, Json)>, kf: Json, from: Seq<char>, to: Seq<char>) -> Seq<
    (Seq<char>, Json),
> {
    match as_array(index(kf, from)) {
        Some(v) => with_field(fields, to, Json::Array(v)),
        None => fields,
    }
}

/// `fields` with `t` set to the keyframe's frame, when it is a non-negative
/// integer.
pub open spec fn with_frame(fields: Seq<(Seq<char>, Json)>, kf: Json) -> Seq<(Seq<char>, Json)> {
    match as_u64(index(kf, "frame"@)) {
        Some(t) => with_field(fields, "t"@, num(t)),
        None => fields,
    }
}

/// `fields` with `h` set to 1 or 0 for a boolean `hold`.
pub open spec fn with_hold(fields: Seq<(Seq<char>, Json)>, kf: Json) -> Seq<(Seq<char>, Json)> {
    match as_bool(index(kf, "hold"@)) {
        Some(h) => with_field(
            fields,
            "h"@,
            num(
                if h {
                    1
                } else {
                    0
                },
            ),
        ),
        None => fields,
    }
}

/// A keyframe of any other slot type: frame `t`, value `s`, tangents `i`
/// and `o`, value tangents `ti` and `to`, hold `h`.
pub open spec fn generic_keyframe(kf: Json) -> Json {
    let f1 = with_frame(no_fields(), kf);
    let f2 = with_array(f1, kf, "value"@, "s"@);
    let f3 = with_tangent(f2, kf, "inTangent"@, "i"@);
    let f4 = with_tangent(f3, kf, "outTangent"@, "o"@);
    let f5 = with_array(f4, kf, "valueInTangent"@, "ti"@);
    let f6 = with_array(f5, kf, "valueOutTangent"@, "to"@);
    Json::Object(with_hold(f6, kf))
}

/// A scalar keyframe: like any other, but its value is written as a
/// one-element array of floating-point numbers.
pub open spec fn scalar_keyframe(kf: Json) -> Json {
    let f1 = with_frame(no_fields(), kf);
    let f2 = match as_f64(index(kf, "value"@)) {
        Some(n) => with_field(f1, "s"@, Json::Array(seq![Json::Number(n)])),
        None => f1,
    };
    let f3 = with_tangent(f2, kf, "inTangent"@, "i"@);
    let f4 = with_tangent(f3, kf, "outTangent"@, "o"@);
    let f5 = with_array(f4, kf, "valueInTangent"@, "ti"@);
    let f6 = with_array(f5, kf, "valueOutTangent"@, "to"@);
    Json::Object(with_hold(f6, kf))
}

/// Setting a field: a lookup of that name finds the new value, a lookup of
/// any other name finds what it found before.
proof fn lemma_lookup_with_field(s: Seq<(Seq<char>, Json)>, key: Seq<char>, value: Json)
    ensures
        forall|k: Seq<char>| #[trigger] lookup(with_field(s, key, value), k) == if k == key {
            Some(value)
        } else {
            lookup(s, k)
        },
    decreases s.len(),
{
    let w = with_field(s, key, value);
    if s.len() == 0 {
        assert(w == seq![(key, value)]);
        assert(w.drop_first() =~= Seq::<(Seq<char>, Json)>::empty());
        assert forall|k: Seq<char>| #[trigger] lookup(w, k) == if k == key {
            Some(value)
        } else {
            lookup(s, k)
        } by {
            assert(w[0] == (key, value));
            assert(lookup(w.drop_first(), k) is None);
        }
    } else if s[0].0 == key {
        assert(w == s.update(0, (key, value)));
        assert(w.drop_first() =~= s.drop_first());
        assert forall|k: Seq<char>| #[trigger] lookup(w, k) == if k == key {
            Some(value)
        } else {
            lookup(s, k)
        } by {
            assert(w[0] == (key, value));
            if k != key {
                assert(lookup(w, k) == lookup(w.drop_first(), k));
                assert(lookup(s, k) == lookup(s.drop_first(), k));
            }
        }
    } else {
        lemma_lookup_with_field(s.drop_first(), key, value);
        assert(w == seq![s[0]] + with_field(s.drop_first(), key, value));
        assert(w.drop_first() =~= with_field(s.drop_first(), key, value));
        assert forall|k: Seq<char>| #[trigger] lookup(w, k) == if k == key {
            Some(value)
        } else {
            lookup(s, k)
        } by {
            assert(w[0] == s[0]);
            if s[0].0 != k {
                assert(lookup(w, k) == lookup(with_field(s.drop_first(), key, value), k));
                assert(lookup(s, k) == lookup(s.drop_first(), k));
            }
        }
    }
}

/// The `{x, y}` of a tangent object that has both; none otherwise.
pub open spec fn tangent_xy(t: Json) -> Option<Json> {
    match (as_object(t), get(t, "x"@), get(t, "y"@)) {
        (Some(_), Some(x), Some(y)) => Some(Json::Object(seq![("x"@, x), ("y"@, y)])),
        _ => None,
    }
}

/// `with_tangent` sets `to` to the tangent's `{x, y}` when there is one and
/// leaves every other field as it was.
proof fn lemma_lookup_with_tangent(fields: Seq<(Seq<char>, Json)>, kf: Json, from: Seq<char>, to: Seq<char>)
    ensures
        forall|k: Seq<char>| #[trigger] lookup(with_tangent(fields, kf, from, to), k) == if k == to
            && tangent_xy(index(kf, from)) is Some {
            tangent_xy(index(kf, from))
        } else {
            lookup(fields, k)
        },
{
    let t = index(kf, from);
    lemma_lookup_with_field(fields, to, Json::Object(with_field(with_field(no_fields(), "x"@, get(t, "x"@)->0), "y"@, get(t, "y"@)->0)));
    reveal_strlit("x");
    reveal_strlit("y");
    let x = get(t, "x"@)->0;
    let y = get(t, "y"@)->0;
    let one = seq![("x"@, x)];
    assert(with_field(no_fields(), "x"@, x) == one);
    assert(one.drop_first() =~= no_fields());
    assert(with_field(one.drop_first(), "y"@, y) == seq![("y"@, y)]);
    assert("x"@[0] == 'x');
    assert("y"@[0] == 'y');
    assert(one[0].0 != "y"@);
    assert(with_field(one, "y"@, y) == seq![one[0]] + with_field(one.drop_first(), "y"@, y));
    assert(with_field(one, "y"@, y) =~= seq![("x"@, x), ("y"@, y)]);
}

/// `with_array` sets `to` to a copy of the array `kf[from]` when it is one.
proof fn lemma_lookup_with_array(fields: Seq<(Seq<char>, Json)>, kf: Json, from: Seq<char>, to: Seq<char>)
    ensures
        forall|k: Seq<char>| #[trigger] lookup(with_array(fields, kf, from, to), k) == if k == to
            && as_array(index(kf, from)) is Some {
            Some(Json::Array(as_array(index(kf, from))->0))
        } else {
            lookup(fields, k)
        },
{
    if as_array(index(kf, from)) is Some {
        lemma_lookup_with_field(fields, to, Json::Array(as_array(index(kf, from))->0));
    }
}

/// `with_frame` sets `t` to the keyframe's frame when it is a non-negative
/// integer; `with_hold` sets `h` to 1 or 0 for a boolean `hold`.
proof fn lemma_lookup_with_frame_hold(fields: Seq<(Seq<char>, Json)>, kf: Json)
    ensures
        forall|k: Seq<char>| #[trigger] lookup(with_frame(fields, kf), k) == if k == "t"@ && as_u64(
            index(kf, "frame"@),
        ) is Some {
            Some(num(as_u64(index(kf, "frame"@))->0))
        } else {
            lookup(fields, k)
        },
        forall|k: Seq<char>| #[trigger] lookup(with_hold(fields, kf), k) == if k == "h"@ && as_bool(
            index(kf, "hold"@),
        ) is Some {
            Some(num(if as_bool(index(kf, "hold"@))->0 { 1 } else { 0 }))
        } else {
            lookup(fields, k)
        },
{
    if as_u64(index(kf, "frame"@)) is Some {
        lemma_lookup_with_field(fields, "t"@, num(as_u64(index(kf, "frame"@))->0));
    }
    if as_bool(index(kf, "hold"@)) is Some {
        lemma_lookup_with_field(fields, "h"@, num(if as_bool(index(kf, "hold"@))->0 { 1 } else { 0 }));
    }
}

/// Every field of a theme keyframe lands where the slot format wants it: the
/// frame in `t`, the value array in `s`, the `inTangent`'s `{x, y}` in `i`
/// and the `outTangent`'s in `o`, the value tangents in `ti` and `to`, and
/// the hold flag as 1 or 0 in `h`; a field the keyframe lacks is absent.
pub proof fn law_generic_keyframe_fields(kf: Json)
    ensures
        get(generic_keyframe(kf), "i"@) == tangent_xy(index(kf, "inTangent"@)),
        get(generic_keyframe(kf), "o"@) == tangent_xy(index(kf, "outTangent"@)),
        get(generic_keyframe(kf), "t"@) == match as_u64(index(kf, "frame"@)) {
            Some(t) => Some(num(t)),
            None => None,
        },
        get(generic_keyframe(kf), "s"@) == match as_array(index(kf, "value"@)) {
            Some(a) => Some(Json::Array(a)),
            None => None,
        },
        get(generic_keyframe(kf), "ti"@) == match as_array(index(kf, "valueInTangent"@)) {
            Some(a) => Some(Json::Array(a)),
            None => None,
        },
        get(generic_keyframe(kf), "to"@) == match as_array(index(kf, "valueOutTangent"@)) {
            Some(a) => Some(Json::Array(a)),
            None => None,
        },
        get(generic_keyframe(kf), "h"@) == match as_bool(index(kf, "hold"@)) {
            Some(h) => Some(num(if h { 1 } else { 0 })),
            None => None,
        },
{
    reveal_strlit("t");
    reveal_strlit("s");
    reveal_strlit("i");
    reveal_strlit("o");
    reveal_strlit("ti");
    reveal_strlit("to");
    reveal_strlit("h");
    assert("t"@[0] == 't' && "s"@[0] == 's' && "i"@[0] == 'i' && "o"@[0] == 'o' && "h"@[0] == 'h');
    assert("t"@.len() == 1 && "ti"@.len() == 2 && "to"@.len() == 2 && "ti"@[1] == 'i' && "to"@[1] == 'o');
    let f1 = with_frame(no_fields(), kf);
    let f2 = with_array(f1, kf, "value"@, "s"@);
    let f3 = with_tangent(f2, kf, "inTangent"@, "i"@);
    let f4 = with_tangent(f3, kf, "outTangent"@, "o"@);
    let f5 = with_array(f4, kf, "valueInTangent"@, "ti"@);
    let f6 = with_array(f5, kf, "valueOutTangent"@, "to"@);
    lemma_lookup_with_frame_hold(no_fields(), kf);
    lemma_lookup_with_array(f1, kf, "value"@, "s"@);
    lemma_lookup_with_tangent(f2, kf, "inTangent"@, "i"@);
    lemma_lookup_with_tangent(f3, kf, "outTangent"@, "o"@);
    lemma_lookup_with_array(f4, kf, "valueInTangent"@, "ti"@);
    lemma_lookup_with_array(f5, kf, "valueOutTangent"@, "to"@);
    lemma_lookup_with_frame_hold(f6, kf);
    assert(lookup(with_hold(f6, kf), "t"@) == lookup(f6, "t"@));
    assert(lookup(f6, "t"@) == lookup(f5, "t"@));
    assert(lookup(f5, "t"@) == lookup(f4, "t"@));
    assert(lookup(f4, "t"@) == lookup(f3, "t"@));
    assert(lookup(f3, "t"@) == lookup(f2, "t"@));
    assert(lookup(f2, "t"@) == lookup(f1, "t"@));
    assert(lookup(with_hold(f6, kf), "ti"@) == lookup(f6, "ti"@));
    assert(lookup(f6, "ti"@) == lookup(f5, "ti"@));
    assert(lookup(f4, "ti"@) == lookup(f3, "ti"@));
    assert(lookup(f3, "ti"@) == lookup(f2, "ti"@));
    assert(lookup(f2, "ti"@) == lookup(f1, "ti"@));
    assert(lookup(f1, "ti"@) == lookup(no_fields(), "ti"@));
    assert(lookup(no_fields(), "i"@) is None);
    assert(lookup(no_fields(), "o"@) is None);
    assert(lookup(no_fields(), "s"@) is None);
    assert(lookup(no_fields(), "ti"@) is None);
    assert(lookup(no_fields(), "to"@) is None);
    assert(lookup(no_fields(), "h"@) is None);
    assert(lookup(no_fields(), "t"@) is None);
}

/// A scalar keyframe's tangents land as any other keyframe's do: the
/// `inTangent`'s `{x, y}` in `i`, the `outTangent`'s in `o`.
pub proof fn law_scalar_keyframe_tangents(kf: Json)
    ensures
        get(scalar_keyframe(kf), "i"@) == tangent_xy(index(kf, "inTangent"@)),
        get(scalar_keyframe(kf), "o"@) == tangent_xy(index(kf, "outTangent"@)),
{
    reveal_strlit("t");
    reveal_strlit("s");
    reveal_strlit("i");
    reveal_strlit("o");
    reveal_strlit("ti");
    reveal_strlit("to");
    reveal_strlit("h");
    assert("t"@[0] == 't' && "s"@[0] == 's' && "i"@[0] == 'i' && "o"@[0] == 'o' && "h"@[0] == 'h');
    assert("t"@.len() == 1 && "ti"@.len() == 2 && "to"@.len() == 2 && "ti"@[1] == 'i' && "to"@[1] == 'o');
    let f1 = with_frame(no_fields(), kf);
    let f2 = match as_f64(index(kf, "value"@)) {
        Some(n) => with_field(f1, "s"@, Json::Array(seq![Json::Number(n)])),
        None => f1,
    };
    let f3 = with_tangent(f2, kf, "inTangent"@, "i"@);
    let f4 = with_tangent(f3, kf, "outTangent"@, "o"@);
    let f5 = with_array(f4, kf, "valueInTangent"@, "ti"@);
    let f6 = with_array(f5, kf, "valueOutTangent"@, "to"@);
    lemma_lookup_with_frame_hold(no_fields(), kf);
    if as_f64(index(kf, "value"@)) is Some {
        lemma_lookup_with_field(f1, "s"@, Json::Array(seq![Json::Number(as_f64(index(kf, "value"@))->0)]));
    }
    lemma_lookup_with_tangent(f2, kf, "inTangent"@, "i"@);
    lemma_lookup_with_tangent(f3, kf, "outTangent"@, "o"@);
    lemma_lookup_with_array(f4, kf, "valueInTangent"@, "ti"@);
    lemma_lookup_with_array(f5, kf, "valueOutTangent"@, "to"@);
    lemma_lookup_with_frame_hold(f6, kf);
    assert(lookup(no_fields(), "i"@) is None);
    assert(lookup(no_fields(), "o"@) is None);
}

/// The object `{a, k}`.
pub open spec fn animated(a: u64, k: Json) -> Json {
    Json::Object(with_field(with_field(no_fields(), "a"@, num(a)), "k"@, k))
}

/// A slot of any other type: animated from its keyframes (a single keyframe
/// is written as itself, not as an array), or static from its `value` array.
pub open spec fn other_slot(rule: Json) -> Json {
    match as_array(index(rule, "keyframes"@)) {
        Some(kfs) => {
            let converted = Seq::new(kfs.len(), |i: int| generic_keyframe(kfs[i]));
            if kfs.len() > 1 {
                animated(1, Json::Array(converted))
            } else {
                animated(0, converted[0])
            }
        },
        None => match as_array(index(rule, "value"@)) {
            Some(v) => animated(0, Json::Array(v)),
            None => Json::Object(no_fields()),
        },
    }
}

/// A scalar slot: animated from its keyframes, or static from a numeric
/// `value`.
pub open spec fn scalar_slot(rule: Json) -> Json {
    match as_array(index(rule, "keyframes"@)) {
        Some(kfs) => animated(1, Json::Array(Seq::new(kfs.len(), |i: int| scalar_keyframe(kfs[i])))),
        None => match as_f64(index(rule, "value"@)) {
            Some(n) => animated(0, Json::Array(seq![Json::Number(n)])),
            None => Json::Object(no_fields()),
        },
    }
}

/// A color component read as a floating-point number; `0.0` when it is not
/// a number.
pub open spec fn component(c: Json) -> JsonNumber {
    match as_f64(c) {
        Some(n) => n,
        None => float_zero(),
    }
}

/// How many color components are written: at most three.
pub open spec fn written_components(color: Seq<Json>) -> nat {
    if color.len() < 3 {
        color.len()
    } else {
        3
    }
}

/// A gradient stop's color entry: its offset and up to three color
/// components; nothing when the stop lacks a numeric offset or a color array.
pub open spec fn stop_colors(stop: Json) -> Seq<Json> {
    match (as_f64(index(stop, "offset"@)), as_array(index(stop, "color"@))) {
        (Some(offset), Some(color)) => seq![Json::Number(offset)] + Seq::new(
            written_components(color),
            |j: int| Json::Number(component(color[j])),
        ),
        _ => Seq::empty(),
    }
}

/// A gradient stop's opacity entry: its offset and alpha. With four color
/// components the alpha is the fourth (`1.0` when it is not a number);
/// otherwise it is `1.0` when some stop of the gradient has an alpha, and
/// there is no entry when none has.
pub open spec fn stop_alpha(stop: Json, alpha_present: bool) -> Seq<Json> {
    match (as_f64(index(stop, "offset"@)), as_array(index(stop, "color"@))) {
        (Some(offset), Some(color)) => if color.len() == 4 {
            seq![
                Json::Number(offset),
                Json::Number(
                    match as_f64(color[3]) {
                        Some(a) => a,
                        None => float_one(),
                    },
                ),
            ]
        } else if alpha_present {
            seq![Json::Number(offset), Json::Number(float_one())]
        } else {
            Seq::empty()
        },
        _ => Seq::empty(),
    }
}

/// Whether a stop has a color with four components.
pub open spec fn stop_has_alpha(stop: Json) -> bool {
    match as_array(index(stop, "color"@)) {
        Some(c) => c.len() == 4,
        None => false,
    }
}

/// Whether some stop has a color with four components.
pub open spec fn has_alpha(stops: Seq<Json>) -> bool {
    exists|i: int| 0 <= i < stops.len() && stop_has_alpha(#[trigger] stops[i])
}

/// The color entries of all stops, in order.
pub open spec fn color_values(stops: Seq<Json>) -> Seq<Json>
    decreases stops.len(),
{
    if stops.len() == 0 {
        Seq::empty()
    } else {
        color_values(stops.drop_last()) + stop_colors(stops.last())
    }
}

/// The opacity entries of all stops, in order.
pub open spec fn alpha_values(stops: Seq<Json>, alpha_present: bool) -> Seq<Json>
    decreases stops.len(),
{
    if stops.len() == 0 {
        Seq::empty()
    } else {
        alpha_values(stops.drop_last(), alpha_present) + stop_alpha(stops.last(), alpha_present)
    }
}

/// The numbers of a gradient: all color entries, then all opacity entries.
pub open spec fn gradient_values(stops: Seq<Json>) -> Seq<Json> {
    color_values(stops) + alpha_values(stops, has_alpha(stops))
}

/// A gradient keyframe: frame `t`, gradient numbers `s`, tangents `i` and
/// `o`, hold `h`.
pub open spec fn gradient_keyframe(kf: Json) -> Json {
    let f1 = with_frame(no_fields(), kf);
    let f2 = match as_array(index(kf, "value"@)) {
        Some(v) => with_field(f1, "s"@, Json::Array(gradient_values(v))),
        None => f1,
    };
    let f3 = with_tangent(f2, kf, "inTangent"@, "i"@);
    let f4 = with_tangent(f3, kf, "outTangent"@, "o"@);
    Json::Object(with_hold(f4, kf))
}

/// A gradient keyframe's tangents land as any other keyframe's do: the
/// `inTangent`'s `{x, y}` in `i`, the `outTangent`'s in `o`; its frame in
/// `t`.
pub proof fn law_gradient_keyframe_fields(kf: Json)
    ensures
        get(gradient_keyframe(kf), "i"@) == tangent_xy(index(kf, "inTangent"@)),
        get(gradient_keyframe(kf), "o"@) == tangent_xy(index(kf, "outTangent"@)),
        get(gradient_keyframe(kf), "t"@) == match as_u64(index(kf, "frame"@)) {
            Some(t) => Some(num(t)),
            None => None,
        },
{
    reveal_strlit("t");
    reveal_strlit("s");
    reveal_strlit("i");
    reveal_strlit("o");
    reveal_strlit("h");
    assert("t"@[0] == 't' && "s"@[0] == 's' && "i"@[0] == 'i' && "o"@[0] == 'o' && "h"@[0] == 'h');
    let f1 = with_frame(no_fields(), kf);
    let f2 = match as_array(index(kf, "value"@)) {
        Some(v) => with_field(f1, "s"@, Json::Array(gradient_values(v))),
        None => f1,
    };
    let f3 = with_tangent(f2, kf, "inTangent"@, "i"@);
    let f4 = with_tangent(f3, kf, "outTangent"@, "o"@);
    lemma_lookup_with_frame_hold(no_fields(), kf);
    if as_array(index(kf, "value"@)) is Some {
        lemma_lookup_with_field(f1, "s"@, Json::Array(gradient_values(as_array(index(kf, "value"@))->0)));
    }
    lemma_lookup_with_tangent(f2, kf, "inTangent"@, "i"@);
    lemma_lookup_with_tangent(f3, kf, "outTangent"@, "o"@);
    lemma_lookup_with_frame_hold(f4, kf);
    assert(lookup(no_fields(), "i"@) is None);
    assert(lookup(no_fields(), "o"@) is None);
    assert(lookup(no_fields(), "t"@) is None);
}

/// The object `{k, p}`.
pub open spec fn gradient_object(k: Json, p: u64) -> Json {
    Json::Object(with_field(with_field(no_fields(), "k"@, k), "p"@, num(p)))
}

/// A gradient slot: animated from its keyframes (`p` counts the stops of the
/// first keyframe, 0 when its value is not an array), or static from its
/// `value` stops.
pub open spec fn gradient_slot(rule: Json) -> Json {
    match as_array(index(rule, "keyframes"@)) {
        Some(kfs) => gradient_object(
            animated(1, Json::Array(Seq::new(kfs.len(), |i: int| gradient_keyframe(kfs[i])))),
            match as_array(index(kfs[0], "value"@)) {
                Some(v) => v.len() as u64,
                None => 0,
            },
        ),
        None => match as_array(index(rule, "value"@)) {
            Some(v) => gradient_object(animated(0, Json::Array(gradient_values(v))), v.len() as u64),
            None => Json::Object(no_fields()),
        },
    }
}

/// The text of `rule[key]`, empty when it is not a string.
pub open spec fn text_or_empty(rule: Json, key: Seq<char>) -> Seq<char> {
    match as_str(index(rule, key)) {
        Some(t) => t,
        None => Seq::empty(),
    }
}

/// The `p` of a rule's slot, by the rule's `type`.
pub open spec fn slot_value(rule: Json) -> Json {
    let kind = text_or_empty(rule, "type"@);
    if kind == "Image"@ {
        image_slot(rule)
    } else if kind == "Gradient"@ {
        gradient_slot(rule)
    } else if kind == "Scalar"@ {
        scalar_slot(rule)
    } else {
        other_slot(rule)
    }
}

/// Whether a rule's `keyframes`, when it is an array, has a first keyframe.
pub open spec fn keyframes_nonempty(rule: Json) -> bool {
    match as_array(index(rule, "keyframes"@)) {
        Some(kfs) => kfs.len() > 0,
        None => true,
    }
}

/// Whether transforming a rule stays clear of an empty keyframe list where
/// the first keyframe is read (gradient and other slot types).
pub open spec fn rule_transformable(rule: Json) -> bool {
    let kind = text_or_empty(rule, "type"@);
    kind == "Image"@ || kind == "Scalar"@ || keyframes_nonempty(rule)
}

/// The slots of the rules that apply to `active`, by id; a later rule with
/// the same id replaces an earlier one.
pub open spec fn slots_of(rules: Seq<Json>, active: Seq<char>) -> Seq<(Seq<char>, Json)>
    decreases rules.len(),
{
    if rules.len() == 0 {
        no_fields()
    } else {
        let rule = rules.last();
        let before = slots_of(rules.drop_last(), active);
        if should_process(rule, active) {
            with_field(
                before,
                text_or_empty(rule, "id"@),
                Json::Object(with_field(no_fields(), "p"@, slot_value(rule))),
            )
        } else {
            before
        }
    }
}

/// Whether every rule of `rules` that applies to `active` can be transformed.
pub open spec fn rules_transformable(rules: Seq<Json>, active: Seq<char>) -> bool {
    forall|i: int|
        0 <= i < rules.len() && should_process(#[trigger] rules[i], active) ==> rule_transformable(
            rules[i],
        )
}

/// Whether every rule of a theme that applies to `active` can be transformed.
pub open spec fn theme_transformable(theme: Json, active: Seq<char>) -> bool {
    match as_array(index(theme, "rules"@)) {
        Some(rules) => rules_transformable(rules, active),
        None => true,
    }
}

// ---------------------------------------------------------------------------
// The transformation

/// An object with these fields.
fn object(fields: Vec<(String, JsonValue)>) -> (r: JsonValue)
    ensures
        json_of(r) == Json::Object(fields_json(fields@)),
{
    proof {
        lemma_object_json(fields);
    }
    JsonValue::Object(fields)
}

/// An array with these items.
fn array(items: Vec<JsonValue>) -> (r: JsonValue)
    ensures
        json_of(r) == Json::Array(jsons(items@)),
{
    proof {
        lemma_array_json(items);
    }
    JsonValue::Array(items)
}

/// A copy of an array's items, as an array.
fn copy_array(items: &Vec<JsonValue>) -> (r: JsonValue)
    ensures
        json_of(r) == Json::Array(jsons(items@)),
{
    let mut copied: Vec<JsonValue> = Vec::new();
    for i in 0..items.len()
        invariant
            copied@.len() == i,
            forall|j: int| 0 <= j < i ==> json_of(#[trigger] copied@[j]) == json_of(items@[j]),
    {
        copied.push(copy_json(&items[i]));
    }
    assert(jsons(copied@) =~= jsons(items@));
    array(copied)
}

/// `v[key]` read as an array.
fn array_at<'a>(v: &'a JsonValue, key: &str) -> (r: Option<&'a Vec<JsonValue>>)
    ensures
        match r {
            Some(items) => as_array(index(json_of(*v), key@)) == Some(jsons(items@)),
            None => as_array(index(json_of(*v), key@)) is None,
        },
{
    match field(v, key) {
        Some(x) => items_of(x),
        None => None,
    }
}

/// `v[key]` read as a non-negative integer.
fn u64_at(v: &JsonValue, key: &str) -> (r: Option<u64>)
    ensures
        r == as_u64(index(json_of(*v), key@)),
{
    match field(v, key) {
        Some(x) => u64_of(x),
        None => None,
    }
}

/// `v[key]` read as a boolean.
fn bool_at(v: &JsonValue, key: &str) -> (r: Option<bool>)
    ensures
        r == as_bool(index(json_of(*v), key@)),
{
    match field(v, key) {
        Some(x) => bool_of(x),
        None => None,
    }
}

/// `v[key]` read as a floating-point number.
fn f64_at(v: &JsonValue, key: &str) -> (r: Option<JsonNumber>)
    ensures
        r == as_f64(index(json_of(*v), key@)),
{
    match field(v, key) {
        Some(x) => f64_of(x),
        None => None,
    }
}

/// `v[key]` read as text.
fn str_at<'a>(v: &'a JsonValue, key: &str) -> (r: Option<&'a str>)
    ensures
        match r {
            Some(t) => as_str(index(json_of(*v), key@)) == Some(t@),
            None => as_str(index(json_of(*v), key@)) is None,
        },
{
    match field(v, key) {
        Some(x) => text_of(x),
        None => None,
    }
}

/// The last `/`-separated piece of `s`.
fn last_segment_of(s: &str) -> (r: String)
    ensures
        r@ == last_segment(s@),
{
    let chars = chars_of(s);
    let mut start: usize = chars.len();
    assert(chars@.take(start as int) =~= chars@);
    assert(last_segment(chars@) + chars@.skip(start as int) =~= last_segment(chars@));
    while start > 0 && chars[start - 1] != '/'
        invariant
            start <= chars@.len(),
            last_segment(chars@) == last_segment(chars@.take(start as int)) + chars@.skip(
                start as int,
            ),
        decreases start,
    {
        let ghost t = chars@.take(start as int);
        assert(t.drop_last() =~= chars@.take(start - 1));
        assert(chars@.skip(start - 1) =~= seq![t.last()] + chars@.skip(start as int));
        assert(last_segment(t) == last_segment(t.drop_last()).push(t.last()));
        assert(last_segment(t.drop_last()).push(t.last()) + chars@.skip(start as int) =~= last_segment(
            t.drop_last(),
        ) + (seq![t.last()] + chars@.skip(start as int)));
        start = start - 1;
    }
    proof {
        let t = chars@.take(start as int);
        if start > 0 {
            assert(t.last() == '/');
        }
        assert(last_segment(t) =~= Seq::<char>::empty());
        assert(chars@.skip(start as int) =~= chars@.skip(start as int));
    }
    let rest = slice_chars(&chars, start, chars.len());
    assert(rest@ =~= chars@.skip(start as int));
    string_of(&rest)
}

/// Whether a rule applies to the animation `active` (see `should_process`).
pub fn should_process_rule(rule: &JsonValue, active_animation_id: &str) -> (b: bool)
    ensures
        b == should_process(json_of(*rule), active_animation_id@),
{
    if field(rule, "animations").is_none() {
        return true;
    }
    let names = match array_at(rule, "animations") {
        Some(names) => names,
        None => return false,
    };
    let ghost js = jsons(names@);
    for i in 0..names.len()
        invariant
            as_array(index(json_of(*rule), "animations"@)) == Some(js),
            js == jsons(names@),
            forall|j: int| 0 <= j < i ==> js[j] != Json::String(active_animation_id@),
    {
        match text_of(&names[i]) {
            Some(t) => {
                if same_text(t, active_animation_id) {
                    assert(js[i as int] == Json::String(active_animation_id@));
                    return true;
                }
            },
            None => {},
        }
    }
    false
}

/// No fields yet.
fn new_fields() -> (f: Vec<(String, JsonValue)>)
    ensures
        fields_json(f@) == no_fields(),
{
    let f: Vec<(String, JsonValue)> = Vec::new();
    assert(fields_json(f@) =~= no_fields());
    f
}

/// The empty object.
fn empty_object() -> (r: JsonValue)
    ensures
        json_of(r) == Json::Object(no_fields()),
{
    object(new_fields())
}

/// An image rule's slot (see `image_slot`).
pub fn handle_image_slot(rule: &JsonValue) -> (r: JsonValue)
    ensures
        json_of(r) == image_slot(json_of(*rule)),
{
    let value = match field(rule, "value") {
        Some(v) => v,
        None => return empty_object(),
    };
    if fields_of(value).is_none() {
        return empty_object();
    }
    let ghost jv = json_of(*value);
    let mut data = new_fields();
    if let Some(w) = u64_at(value, "width") {
        set_field(&mut data, "w", JsonValue::Number(JsonNumber::PosInt(w)));
    }
    assert(fields_json(data@) == match u64_field(jv, "width"@) {
        Some(w) => with_field(no_fields(), "w"@, num(w)),
        None => no_fields(),
    });
    if let Some(h) = u64_at(value, "height") {
        set_field(&mut data, "h", JsonValue::Number(JsonNumber::PosInt(h)));
    }
    if let Some(path) = str_at(value, "path") {
        set_field(&mut data, "u", JsonValue::String(path.to_owned()));
        set_field(&mut data, "p", JsonValue::String(last_segment_of(path)));
        set_field(&mut data, "e", JsonValue::Number(JsonNumber::PosInt(0)));
    }
    if let Some(data_url) = str_at(value, "dataUrl") {
        set_field(&mut data, "p", JsonValue::String(data_url.to_owned()));
        set_field(&mut data, "e", JsonValue::Number(JsonNumber::PosInt(1)));
    }
    object(data)
}

/// Set `to` to the `{x, y}` of the tangent `kf[from]` (see `with_tangent`).
fn add_tangent(fields: &mut Vec<(String, JsonValue)>, kf: &JsonValue, from: &str, to: &str)
    ensures
        fields_json(final(fields)@) == with_tangent(fields_json(old(fields)@), json_of(*kf), from@, to@),
{
    let t = match field(kf, from) {
        Some(t) => t,
        None => return,
    };
    if fields_of(t).is_none() {
        return;
    }
    match (field(t, "x"), field(t, "y")) {
        (Some(x), Some(y)) => {
            let mut xy = new_fields();
            set_field(&mut xy, "x", copy_json(x));
            set_field(&mut xy, "y", copy_json(y));
            set_field(fields, to, object(xy));
        },
        _ => {},
    }
}

/// Set `to` to a copy of the array `kf[from]` (see `with_array`).
fn add_array(fields: &mut Vec<(String, JsonValue)>, kf: &JsonValue, from: &str, to: &str)
    ensures
        fields_json(final(fields)@) == with_array(fields_json(old(fields)@), json_of(*kf), from@, to@),
{
    if let Some(items) = array_at(kf, from) {
        set_field(fields, to, copy_array(items));
    }
}

/// Set `t` to the keyframe's frame (see `with_frame`).
fn add_frame(fields: &mut Vec<(String, JsonValue)>, kf: &JsonValue)
    ensures
        fields_json(final(fields)@) == with_frame(fields_json(old(fields)@), json_of(*kf)),
{
    if let Some(t) = u64_at(kf, "frame") {
        set_field(fields, "t", JsonValue::Number(JsonNumber::PosInt(t)));
    }
}

/// Set `h` from the keyframe's `hold` (see `with_hold`).
fn add_hold(fields: &mut Vec<(String, JsonValue)>, kf: &JsonValue)
    ensures
        fields_json(final(fields)@) == with_hold(fields_json(old(fields)@), json_of(*kf)),
{
    if let Some(hold) = bool_at(kf, "hold") {
        let h: u64 = if hold {
            1
        } else {
            0
        };
        set_field(fields, "h", JsonValue::Number(JsonNumber::PosInt(h)));
    }
}

/// A keyframe of any other slot type (see `generic_keyframe`).
pub fn handle_generic_keyframe(keyframe: &JsonValue) -> (r: JsonValue)
    ensures
        json_of(r) == generic_keyframe(json_of(*keyframe)),
{
    let mut frame_data = new_fields();
    add_frame(&mut frame_data, keyframe);
    add_array(&mut frame_data, keyframe, "value", "s");
    add_tangent(&mut frame_data, keyframe, "inTangent", "i");
    add_tangent(&mut frame_data, keyframe, "outTangent", "o");
    add_array(&mut frame_data, keyframe, "valueInTangent", "ti");
    add_array(&mut frame_data, keyframe, "valueOutTangent", "to");
    add_hold(&mut frame_data, keyframe);
    object(frame_data)
}

/// A one-element array holding a number.
fn single_number(n: JsonNumber) -> (r: JsonValue)
    ensures
        json_of(r) == Json::Array(seq![Json::Number(n)]),
{
    let mut items: Vec<JsonValue> = Vec::new();
    items.push(JsonValue::Number(n));
    let r = array(items);
    assert(jsons(items@) =~= seq![Json::Number(n)]);
    r
}

/// A scalar keyframe (see `scalar_keyframe`).
pub fn handle_scalar_keyframe(keyframe: &JsonValue) -> (r: JsonValue)
    ensures
        json_of(r) == scalar_keyframe(json_of(*keyframe)),
{
    let mut frame_data = new_fields();
    add_frame(&mut frame_data, keyframe);
    if let Some(value) = f64_at(keyframe, "value") {
        set_field(&mut frame_data, "s", single_number(value));
    }
    add_tangent(&mut frame_data, keyframe, "inTangent", "i");
    add_tangent(&mut frame_data, keyframe, "outTangent", "o");
    add_array(&mut frame_data, keyframe, "valueInTangent", "ti");
    add_array(&mut frame_data, keyframe, "valueOutTangent", "to");
    add_hold(&mut frame_data, keyframe);
    object(frame_data)
}

/// The object `{a, k}` (see `animated`).
fn animated_object(a: u64, k: JsonValue) -> (r: JsonValue)
    ensures
        json_of(r) == animated(a, json_of(k)),
{
    let mut fields = new_fields();
    set_field(&mut fields, "a", JsonValue::Number(JsonNumber::PosInt(a)));
    set_field(&mut fields, "k", k);
    object(fields)
}

/// `jsons` of a list grown by one item.
proof fn lemma_jsons_push(s: Seq<JsonValue>, x: JsonValue)
    ensures
        jsons(s.push(x)) == jsons(s).push(json_of(x)),
{
    assert(jsons(s.push(x)) =~= jsons(s).push(json_of(x)));
}

/// A slot of any other type (see `other_slot`). A keyframe list must have a
/// first keyframe (it is read when there is only one).
pub fn handle_other_slot_types(rule: &JsonValue) -> (r: JsonValue)
    requires
        keyframes_nonempty(json_of(*rule)),
    ensures
        json_of(r) == other_slot(json_of(*rule)),
{
    if let Some(kfs) = array_at(rule, "keyframes") {
        let ghost ks = jsons(kfs@);
        let mut converted: Vec<JsonValue> = Vec::new();
        for i in 0..kfs.len()
            invariant
                ks == jsons(kfs@),
                converted@.len() == i,
                forall|j: int| 0 <= j < i ==> json_of(#[trigger] converted@[j]) == generic_keyframe(ks[j]),
        {
            converted.push(handle_generic_keyframe(&kfs[i]));
        }
        let ghost expected = Seq::new(ks.len(), |i: int| generic_keyframe(ks[i]));
        assert(jsons(converted@) =~= expected);
        if kfs.len() > 1 {
            animated_object(1, array(converted))
        } else {
            let first = converted.remove(0);
            animated_object(0, first)
        }
    } else if let Some(v) = array_at(rule, "value") {
        animated_object(0, copy_array(v))
    } else {
        empty_object()
    }
}

/// A scalar slot (see `scalar_slot`).
pub fn handle_scalar_slot(rule: &JsonValue) -> (r: JsonValue)
    ensures
        json_of(r) == scalar_slot(json_of(*rule)),
{
    if let Some(kfs) = array_at(rule, "keyframes") {
        let ghost ks = jsons(kfs@);
        let mut converted: Vec<JsonValue> = Vec::new();
        for i in 0..kfs.len()
            invariant
                ks == jsons(kfs@),
                converted@.len() == i,
                forall|j: int| 0 <= j < i ==> json_of(#[trigger] converted@[j]) == scalar_keyframe(ks[j]),
        {
            converted.push(handle_scalar_keyframe(&kfs[i]));
        }
        assert(jsons(converted@) =~= Seq::new(ks.len(), |i: int| scalar_keyframe(ks[i])));
        animated_object(1, array(converted))
    } else if let Some(value) = f64_at(rule, "value") {
        animated_object(0, single_number(value))
    } else {
        empty_object()
    }
}

/// Whether `stop` has a color with four components.
fn stop_has_alpha_of(stop: &JsonValue) -> (b: bool)
    ensures
        b == stop_has_alpha(json_of(*stop)),
{
    match array_at(stop, "color") {
        Some(color) => color.len() == 4,
        None => false,
    }
}

/// Whether some stop has a color with four components.
fn has_alpha_of(stops: &Vec<JsonValue>) -> (b: bool)
    ensures
        b == has_alpha(jsons(stops@)),
{
    let ghost ss = jsons(stops@);
    for i in 0..stops.len()
        invariant
            ss == jsons(stops@),
            forall|j: int| 0 <= j < i ==> !stop_has_alpha(#[trigger] ss[j]),
    {
        if stop_has_alpha_of(&stops[i]) {
            assert(stop_has_alpha(ss[i as int]));
            return true;
        }
    }
    false
}

/// Append a stop's color entry (see `stop_colors`).
fn push_stop_colors(stop: &JsonValue, out: &mut Vec<JsonValue>)
    ensures
        jsons(final(out)@) == jsons(old(out)@) + stop_colors(json_of(*stop)),
{
    let ghost before = jsons(out@);
    let offset = match f64_at(stop, "offset") {
        Some(o) => o,
        None => {
            assert(before + stop_colors(json_of(*stop)) =~= before);
            return;
        },
    };
    let color = match array_at(stop, "color") {
        Some(c) => c,
        None => {
            assert(before + stop_colors(json_of(*stop)) =~= before);
            return;
        },
    };
    let ghost cs = jsons(color@);
    proof {
        lemma_jsons_push(out@, JsonValue::Number(offset));
    }
    out.push(JsonValue::Number(offset));
    let n: usize = if color.len() < 3 {
        color.len()
    } else {
        3
    };
    let ghost start = out@.len();
    for j in 0..n
        invariant
            cs == jsons(color@),
            n == written_components(cs),
            n <= color@.len(),
            out@.len() == start + j,
            jsons(out@) == before + seq![Json::Number(offset)] + Seq::new(
                j as nat,
                |k: int| Json::Number(component(cs[k])),
            ),
    {
        let c = match f64_of(&color[j]) {
            Some(x) => x,
            None => JsonNumber::Float(0),
        };
        proof {
            lemma_jsons_push(out@, JsonValue::Number(c));
            assert(Seq::new((j + 1) as nat, |k: int| Json::Number(component(cs[k]))) =~= Seq::new(
                j as nat,
                |k: int| Json::Number(component(cs[k])),
            ).push(Json::Number(c)));
        }
        out.push(JsonValue::Number(c));
    }
    assert(before + seq![Json::Number(offset)] + Seq::new(n as nat, |k: int| Json::Number(component(cs[k])))
        =~= before + stop_colors(json_of(*stop)));
}

/// Append a stop's opacity entry (see `stop_alpha`).
fn push_stop_alpha(stop: &JsonValue, alpha_present: bool, out: &mut Vec<JsonValue>)
    ensures
        jsons(final(out)@) == jsons(old(out)@) + stop_alpha(json_of(*stop), alpha_present),
{
    let ghost before = jsons(out@);
    let offset = match f64_at(stop, "offset") {
        Some(o) => o,
        None => {
            assert(before + stop_alpha(json_of(*stop), alpha_present) =~= before);
            return;
        },
    };
    let color = match array_at(stop, "color") {
        Some(c) => c,
        None => {
            assert(before + stop_alpha(json_of(*stop), alpha_present) =~= before);
            return;
        },
    };
    let alpha = if color.len() == 4 {
        match f64_of(&color[3]) {
            Some(a) => a,
            None => JsonNumber::Float(0x3FF0_0000_0000_0000),
        }
    } else if alpha_present {
        JsonNumber::Float(0x3FF0_0000_0000_0000)
    } else {
        assert(before + stop_alpha(json_of(*stop), alpha_present) =~= before);
        return;
    };
    proof {
        lemma_jsons_push(out@, JsonValue::Number(offset));
        lemma_jsons_push(out@.push(JsonValue::Number(offset)), JsonValue::Number(alpha));
    }
    out.push(JsonValue::Number(offset));
    out.push(JsonValue::Number(alpha));
    assert(before.push(Json::Number(offset)).push(Json::Number(alpha)) =~= before + stop_alpha(
        json_of(*stop),
        alpha_present,
    ));
}

/// The numbers of a gradient (see `gradient_values`).
fn gradient_values_of(stops: &Vec<JsonValue>) -> (r: Vec<JsonValue>)
    ensures
        jsons(r@) == gradient_values(jsons(stops@)),
{
    let ghost ss = jsons(stops@);
    let alpha_present = has_alpha_of(stops);
    let mut colors: Vec<JsonValue> = Vec::new();
    let mut alphas: Vec<JsonValue> = Vec::new();
    assert(jsons(colors@) =~= Seq::<Json>::empty());
    assert(jsons(alphas@) =~= Seq::<Json>::empty());
    for i in 0..stops.len()
        invariant
            ss == jsons(stops@),
            alpha_present == has_alpha(ss),
            jsons(colors@) == color_values(ss.take(i as int)),
            jsons(alphas@) == alpha_values(ss.take(i as int), alpha_present),
    {
        proof {
            assert(ss.take(i + 1).drop_last() =~= ss.take(i as int));
            assert(ss.take(i + 1).last() == ss[i as int]);
        }
        push_stop_colors(&stops[i], &mut colors);
        push_stop_alpha(&stops[i], alpha_present, &mut alphas);
    }
    proof {
        assert(ss.take(ss.len() as int) =~= ss);
    }
    let ghost c = jsons(colors@);
    let ghost a = jsons(alphas@);
    colors.append(&mut alphas);
    assert(jsons(colors@) =~= c + a);
    colors
}

/// A gradient keyframe (see `gradient_keyframe`).
fn gradient_keyframe_of(keyframe: &JsonValue) -> (r: JsonValue)
    ensures
        json_of(r) == gradient_keyframe(json_of(*keyframe)),
{
    let mut frame_data = new_fields();
    add_frame(&mut frame_data, keyframe);
    if let Some(value) = array_at(keyframe, "value") {
        set_field(&mut frame_data, "s", array(gradient_values_of(value)));
    }
    add_tangent(&mut frame_data, keyframe, "inTangent", "i");
    add_tangent(&mut frame_data, keyframe, "outTangent", "o");
    add_hold(&mut frame_data, keyframe);
    object(frame_data)
}

/// The object `{k, p}` (see `gradient_object`).
fn gradient_object_of(k: JsonValue, p: u64) -> (r: JsonValue)
    ensures
        json_of(r) == gradient_object(json_of(k), p),
{
    let mut fields = new_fields();
    set_field(&mut fields, "k", k);
    set_field(&mut fields, "p", JsonValue::Number(JsonNumber::PosInt(p)));
    object(fields)
}

/// A gradient slot (see `gradient_slot`). A keyframe list must have a first
/// keyframe (its stops are counted).
pub fn handle_gradient_slot(rule: &JsonValue) -> (r: JsonValue)
    requires
        keyframes_nonempty(json_of(*rule)),
    ensures
        json_of(r) == gradient_slot(json_of(*rule)),
{
    if let Some(kfs) = array_at(rule, "keyframes") {
        let ghost ks = jsons(kfs@);
        let mut converted: Vec<JsonValue> = Vec::new();
        for i in 0..kfs.len()
            invariant
                ks == jsons(kfs@),
                converted@.len() == i,
                forall|j: int| 0 <= j < i ==> json_of(#[trigger] converted@[j]) == gradient_keyframe(ks[j]),
        {
            converted.push(gradient_keyframe_of(&kfs[i]));
        }
        assert(jsons(converted@) =~= Seq::new(ks.len(), |i: int| gradient_keyframe(ks[i])));
        let count: u64 = match array_at(&kfs[0], "value") {
            Some(v) => v.len() as u64,
            None => 0,
        };
        gradient_object_of(animated_object(1, array(converted)), count)
    } else if let Some(value) = array_at(rule, "value") {
        let values = gradient_values_of(value);
        gradient_object_of(animated_object(0, array(values)), value.len() as u64)
    } else {
        empty_object()
    }
}

/// Why a theme cannot be transformed.
#[derive(Debug, Clone, Copy, PartialEq, Eq, Structural)]
pub enum ThemeSlotsError {
    /// The theme has no `rules` array.
    InvalidRules,
}

/// The slots for the animation `active_animation_id`, by id (see
/// `slots_of`); an error when the theme has no `rules` array. A rule that
/// applies, of gradient or other type, must not have an empty keyframe list.
pub fn lottie_slots(theme: &JsonValue, active_animation_id: &str) -> (r: Result<
    Vec<(String, JsonValue)>,
    ThemeSlotsError,
>)
    requires
        theme_transformable(json_of(*theme), active_animation_id@),
    ensures
        match r {
            Ok(slots) => match as_array(index(json_of(*theme), "rules"@)) {
                Some(rules) => fields_json(slots@) == slots_of(rules, active_animation_id@),
                None => false,
            },
            Err(e) => e == ThemeSlotsError::InvalidRules && as_array(
                index(json_of(*theme), "rules"@),
            ) is None,
        },
{
    let rules = match array_at(theme, "rules") {
        Some(rules) => rules,
        None => return Err(ThemeSlotsError::InvalidRules),
    };
    let ghost rs = jsons(rules@);
    let mut slots = new_fields();
    assert(rs.take(0) =~= Seq::<Json>::empty());
    assert(as_array(index(json_of(*theme), "rules"@)) == Some(rs));
    assert forall|j: int|
        0 <= j < rs.len() && should_process(#[trigger] rs[j], active_animation_id@) implies rule_transformable(
        rs[j],
    ) by {
        assert(rules_transformable(rs, active_animation_id@));
    }
    for i in 0..rules.len()
        invariant
            rs == jsons(rules@),
            fields_json(slots@) == slots_of(rs.take(i as int), active_animation_id@),
            forall|j: int|
                0 <= j < rs.len() && should_process(#[trigger] rs[j], active_animation_id@)
                    ==> rule_transformable(rs[j]),
    {
        proof {
            assert(rs.take(i + 1).drop_last() =~= rs.take(i as int));
            assert(rs.take(i + 1).last() == rs[i as int]);
        }
        let rule = &rules[i];
        assert(rs[i as int] == json_of(*rule));
        if should_process_rule(rule, active_animation_id) {
            assert(rule_transformable(json_of(*rule)));
            let id = match str_at(rule, "id") {
                Some(t) => t.to_owned(),
                None => String::new(),
            };
            let kind: &str = match str_at(rule, "type") {
                Some(t) => t,
                None => {
                    proof {
                        reveal_strlit("");
                    }
                    ""
                },
            };
            assert(kind@ == text_or_empty(json_of(*rule), "type"@));
            let p = if same_text(kind, "Image") {
                handle_image_slot(rule)
            } else if same_text(kind, "Gradient") {
                proof {
                    reveal_strlit("Gradient");
                    reveal_strlit("Image");
                    reveal_strlit("Scalar");
                }
                handle_gradient_slot(rule)
            } else if same_text(kind, "Scalar") {
                handle_scalar_slot(rule)
            } else {
                handle_other_slot_types(rule)
            };
            let mut slot = new_fields();
            set_field(&mut slot, "p", p);
            set_field(&mut slots, id.as_str(), object(slot));
        }
    }
    assert(rs.take(rs.len() as int) =~= rs);
    Ok(slots)
}

/// Whether a rule's `keyframes`, when it is an array, has a first keyframe.
fn keyframes_nonempty_of(rule: &JsonValue) -> (b: bool)
    ensures
        b == keyframes_nonempty(json_of(*rule)),
{
    match array_at(rule, "keyframes") {
        Some(kfs) => kfs.len() > 0,
        None => true,
    }
}

/// Whether `lottie_slots` may be asked to transform `theme` (see
/// `theme_transformable`).
pub fn theme_is_transformable(theme: &JsonValue, active_animation_id: &str) -> (b: bool)
    ensures
        b == theme_transformable(json_of(*theme), active_animation_id@),
{
    let rules = match array_at(theme, "rules") {
        Some(rules) => rules,
        None => return true,
    };
    let ghost rs = jsons(rules@);
    for i in 0..rules.len()
        invariant
            rs == jsons(rules@),
            as_array(index(json_of(*theme), "rules"@)) == Some(rs),
            forall|j: int|
                0 <= j < i && should_process(#[trigger] rs[j], active_animation_id@) ==> rule_transformable(
                    rs[j],
                ),
    {
        let rule = &rules[i];
        assert(rs[i as int] == json_of(*rule));
        if should_process_rule(rule, active_animation_id) {
            let kind: &str = match str_at(rule, "type") {
                Some(t) => t,
                None => {
                    proof {
                        reveal_strlit("");
                    }
                    ""
                },
            };
            assert(kind@ == text_or_empty(json_of(*rule), "type"@));
            if !same_text(kind, "Image") && !same_text(kind, "Scalar") && !keyframes_nonempty_of(rule) {
                assert(!rule_transformable(rs[i as int]));
                assert(should_process(rs[i as int], active_animation_id@));
                assert(!rules_transformable(rs, active_animation_id@));
                return false;
            }
        }
    }
    true
}

} // verus!
