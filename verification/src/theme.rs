//! Theme rules: the values they carry, how the fields that every rule shares
//! and image rules are read from JSON, and the names used for text options.
//!
//! Reading follows one convention throughout: a required field that is
//! missing or of the wrong kind makes the whole rule unreadable; an optional
//! field may be missing, but when present it must be of the right kind.
use vstd::prelude::*;

use crate::text::{same_text, texts};
use crate::theming::{
    as_array, as_str, as_u64, field, get, items_of, json_of, jsons, text_of, u64_of, Json, JsonValue,
};

verus! {

/// A theme could not be read.
#[derive(Debug, Clone, Copy, PartialEq, Eq, Structural)]
pub enum Error {
    InvalidTheme,
}

impl Error {
    /// The error's message.
    pub fn message(&self) -> (m: String)
        ensures
            m@ == "invalid theme"@,
    {
        "invalid theme".to_owned()
    }
}

/// Image theme rule - holds image asset information.
#[derive(Debug, Clone, PartialEq)]
pub struct ImageRule {
    pub id: String,
    pub animations: Option<Vec<String>>,
    pub value: ImageValue,
}

/// The image a rule puts in its slot, and optional dimensions.
#[derive(Debug, Clone, PartialEq)]
pub struct ImageValue {
    pub src: String,
    pub width: Option<u32>,
    pub height: Option<u32>,
}

/// An image rule as a mathematical value.
pub ghost struct ImageRuleView {
    pub id: Seq<char>,
    pub animations: Option<Seq<Seq<char>>>,
    pub src: Seq<char>,
    pub width: Option<u32>,
    pub height: Option<u32>,
}

impl View for ImageRule {
    type V = ImageRuleView;

    open spec fn view(&self) -> ImageRuleView {
        ImageRuleView {
            id: self.id@,
            animations: match self.animations {
                Some(a) => Some(texts(a@)),
                None => None,
            },
            src: self.value.src@,
            width: self.value.width,
            height: self.value.height,
        }
    }
}

/// The texts of an array whose items are all strings; nothing for any other
/// value.
pub open spec fn string_list_of(v: Json) -> Option<Seq<Seq<char>>> {
    match v {
        Json::Array(items) => if forall|i: int| 0 <= i < items.len() ==> #[trigger] items[i] is String {
            Some(items.map_values(|x: Json| x->String_0))
        } else {
            None
        },
        _ => None,
    }
}

/// An optional field read with `parse`: `Some(None)` when it is missing,
/// `Some(Some(x))` when it reads as `x`, and nothing when it is present but
/// does not read.
pub open spec fn optional<T>(x: Option<Json>, parse: spec_fn(Json) -> Option<T>) -> Option<Option<T>> {
    match x {
        None => Some(None),
        Some(j) => match parse(j) {
            Some(t) => Some(Some(t)),
            None => None,
        },
    }
}

/// A non-negative integer that fits in 32 bits.
pub open spec fn as_u32(v: Json) -> Option<u32> {
    match as_u64(v) {
        Some(u) => if u <= u32::MAX {
            Some(u as u32)
        } else {
            None
        },
        None => None,
    }
}

/// The text of the string field `key`, if it is one.
pub open spec fn str_field(v: Json, key: Seq<char>) -> Option<Seq<char>> {
    match get(v, key) {
        Some(x) => as_str(x),
        None => None,
    }
}

/// A rule's `id`: a required string.
pub open spec fn rule_id_of(v: Json) -> Option<Seq<char>> {
    str_field(v, "id"@)
}

/// A rule's `animations`: an optional array of strings.
pub open spec fn animations_of(v: Json) -> Option<Option<Seq<Seq<char>>>> {
    optional(get(v, "animations"@), |x: Json| string_list_of(x))
}

/// A rule's `expression`: an optional string.
pub open spec fn expression_of(v: Json) -> Option<Option<Seq<char>>> {
    optional(get(v, "expression"@), |x: Json| as_str(x))
}

/// An image rule: a required `id`, optional `animations`, and a required
/// `value` object with a required string `src` and optional 32-bit `width`
/// and `height`.
pub open spec fn image_rule_of(v: Json) -> Option<ImageRuleView> {
    match get(v, "value"@) {
        None => None,
        Some(value) => {
            let id = rule_id_of(v);
            let animations = animations_of(v);
            let src = str_field(value, "src"@);
            let width = optional(get(value, "width"@), |x: Json| as_u32(x));
            let height = optional(get(value, "height"@), |x: Json| as_u32(x));
            if id is Some && animations is Some && src is Some && width is Some && height is Some {
                Some(
                    ImageRuleView {
                        id: id->0,
                        animations: animations->0,
                        src: src->0,
                        width: width->0,
                        height: height->0,
                    },
                )
            } else {
                None
            }
        },
    }
}

/// The text of the string field `key` of `v`, if it is one.
fn str_field_of<'a>(v: &'a JsonValue, key: &str) -> (r: Option<&'a str>)
    ensures
        match r {
            Some(t) => str_field(json_of(*v), key@) == Some(t@),
            None => str_field(json_of(*v), key@) is None,
        },
{
    match field(v, key) {
        Some(x) => text_of(x),
        None => None,
    }
}

/// The texts of `v` when it is an array of strings (see `string_list_of`).
pub fn string_list(v: &JsonValue) -> (r: Option<Vec<String>>)
    ensures
        match r {
            Some(l) => string_list_of(json_of(*v)) == Some(texts(l@)),
            None => string_list_of(json_of(*v)) is None,
        },
{
    let items = match items_of(v) {
        Some(items) => items,
        None => return None,
    };
    let ghost js = jsons(items@);
    let mut out: Vec<String> = Vec::new();
    for i in 0..items.len()
        invariant
            as_array(json_of(*v)) == Some(js),
            js == jsons(items@),
            out@.len() == i,
            forall|j: int| 0 <= j < i ==> as_str(js[j]) == Some(#[trigger] out@[j]@),
    {
        proof {
            assert(js[i as int] == json_of(items@[i as int]));
        }
        match text_of(&items[i]) {
            Some(t) => {
                let owned = t.to_owned();
                assert(owned@ == t@);
                out.push(owned);
                proof {
                    assert(as_str(js[i as int]) == Some(out@[i as int]@));
                }
            },
            None => {
                proof {
                    assert(!(js[i as int] is String));
                }
                return None;
            },
        }
    }
    proof {
        assert forall|j: int| 0 <= j < js.len() implies #[trigger] js[j] is String by {
            assert(as_str(js[j]) == Some(out@[j]@));
        }
        assert forall|j: int| 0 <= j < js.len() implies #[trigger] texts(out@)[j] == js[j]->String_0 by {
            assert(as_str(js[j]) == Some(out@[j]@));
        }
        assert(texts(out@) =~= js.map_values(|x: Json| x->String_0));
    }
    Some(out)
}

/// A rule's `id` (see `rule_id_of`).
pub fn rule_id(v: &JsonValue) -> (r: Option<String>)
    ensures
        match r {
            Some(id) => rule_id_of(json_of(*v)) == Some(id@),
            None => rule_id_of(json_of(*v)) is None,
        },
{
    match str_field_of(v, "id") {
        Some(t) => Some(t.to_owned()),
        None => None,
    }
}

/// A rule's `animations` (see `animations_of`).
pub fn opt_animations(v: &JsonValue) -> (r: Option<Option<Vec<String>>>)
    ensures
        match r {
            Some(Some(l)) => animations_of(json_of(*v)) == Some(Some(texts(l@))),
            Some(None) => animations_of(json_of(*v)) == Some(None::<Seq<Seq<char>>>),
            None => animations_of(json_of(*v)) is None,
        },
{
    match field(v, "animations") {
        None => Some(None),
        Some(x) => match string_list(x) {
            Some(l) => Some(Some(l)),
            None => None,
        },
    }
}

/// A rule's `expression` (see `expression_of`).
pub fn opt_expression(v: &JsonValue) -> (r: Option<Option<String>>)
    ensures
        match r {
            Some(Some(e)) => expression_of(json_of(*v)) == Some(Some(e@)),
            Some(None) => expression_of(json_of(*v)) == Some(None::<Seq<char>>),
            None => expression_of(json_of(*v)) is None,
        },
{
    match field(v, "expression") {
        None => Some(None),
        Some(x) => match text_of(x) {
            Some(t) => Some(Some(t.to_owned())),
            None => None,
        },
    }
}

/// The optional 32-bit field `key` of `v`.
fn opt_u32_field(v: &JsonValue, key: &str) -> (r: Option<Option<u32>>)
    ensures
        r == optional(get(json_of(*v), key@), |x: Json| as_u32(x)),
{
    match field(v, key) {
        None => Some(None),
        Some(x) => match u64_of(x) {
            Some(u) => if u <= 0xffff_ffffu64 {
                Some(Some(u as u32))
            } else {
                None
            },
            None => None,
        },
    }
}

/// An image rule (see `image_rule_of`).
pub fn image_rule_from_json(v: &JsonValue) -> (r: Option<ImageRule>)
    ensures
        match r {
            Some(rule) => image_rule_of(json_of(*v)) == Some(rule@),
            None => image_rule_of(json_of(*v)) is None,
        },
{
    let value = match field(v, "value") {
        Some(x) => x,
        None => return None,
    };
    let id = match rule_id(v) {
        Some(id) => id,
        None => return None,
    };
    let animations = match opt_animations(v) {
        Some(a) => a,
        None => return None,
    };
    let src = match str_field_of(value, "src") {
        Some(t) => t.to_owned(),
        None => return None,
    };
    let width = match opt_u32_field(value, "width") {
        Some(w) => w,
        None => return None,
    };
    let height = match opt_u32_field(value, "height") {
        Some(h) => h,
        None => return None,
    };
    Some(ImageRule { id, animations, value: ImageValue { src, width, height } })
}

/// Horizontal text alignment.
#[derive(Debug, Clone, Copy, PartialEq, Eq, Structural)]
pub enum TextJustify {
    Left,
    Right,
    Center,
    JustifyLastLeft,
    JustifyLastRight,
    JustifyLastCenter,
    JustifyLastFull,
}

/// Text capitalisation.
#[derive(Debug, Clone, Copy, PartialEq, Eq, Structural)]
pub enum TextCaps {
    Regular,
    AllCaps,
    SmallCaps,
}

/// The alignment named `name` in a theme, if any.
pub open spec fn justify_named(name: Seq<char>) -> Option<TextJustify> {
    if name == "Left"@ {
        Some(TextJustify::Left)
    } else if name == "Right"@ {
        Some(TextJustify::Right)
    } else if name == "Center"@ {
        Some(TextJustify::Center)
    } else if name == "JustifyLastLeft"@ {
        Some(TextJustify::JustifyLastLeft)
    } else if name == "JustifyLastRight"@ {
        Some(TextJustify::JustifyLastRight)
    } else if name == "JustifyLastCenter"@ {
        Some(TextJustify::JustifyLastCenter)
    } else if name == "JustifyLastFull"@ {
        Some(TextJustify::JustifyLastFull)
    } else {
        None
    }
}

/// The capitalisation named `name` in a theme, if any.
pub open spec fn caps_named(name: Seq<char>) -> Option<TextCaps> {
    if name == "Regular"@ {
        Some(TextCaps::Regular)
    } else if name == "AllCaps"@ {
        Some(TextCaps::AllCaps)
    } else if name == "SmallCaps"@ {
        Some(TextCaps::SmallCaps)
    } else {
        None
    }
}

/// The alignment named `justify`, if any.
pub fn parse_justify(justify: &str) -> (r: Option<TextJustify>)
    ensures
        r == justify_named(justify@),
{
    if same_text(justify, "Left") {
        Some(TextJustify::Left)
    } else if same_text(justify, "Right") {
        Some(TextJustify::Right)
    } else if same_text(justify, "Center") {
        Some(TextJustify::Center)
    } else if same_text(justify, "JustifyLastLeft") {
        Some(TextJustify::JustifyLastLeft)
    } else if same_text(justify, "JustifyLastRight") {
        Some(TextJustify::JustifyLastRight)
    } else if same_text(justify, "JustifyLastCenter") {
        Some(TextJustify::JustifyLastCenter)
    } else if same_text(justify, "JustifyLastFull") {
        Some(TextJustify::JustifyLastFull)
    } else {
        None
    }
}

/// The capitalisation named `caps`, if any.
pub fn parse_caps(caps: &str) -> (r: Option<TextCaps>)
    ensures
        r == caps_named(caps@),
{
    if same_text(caps, "Regular") {
        Some(TextCaps::Regular)
    } else if same_text(caps, "AllCaps") {
        Some(TextCaps::AllCaps)
    } else if same_text(caps, "SmallCaps") {
        Some(TextCaps::SmallCaps)
    } else {
        None
    }
}

} // verus!
