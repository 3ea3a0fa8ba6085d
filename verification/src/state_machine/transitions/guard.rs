//! Transition guards: how a guard compares an input with its value.
use vstd::prelude::*;

use std::cmp::Ordering;
use vstd::std_specs::cmp::{PartialEqSpec, PartialOrdSpec};

use crate::state_machine::definition::{StringBool, StringNumberBool};
use crate::state_machine::inputs::{InputManager, InputsView};
use crate::state_machine::{
    elapsed_time_key, is_elapsed_time_key, referenced_name, starts_with_char, str_starts_with_char,
    strip_reference,
};
use crate::string::{DotString, DotStringInterner};
use crate::text::{chars_eq, chars_of, same_text};

verus! {

/// How a guard compares its input with its value.
#[derive(Debug, Clone, Copy, PartialEq, Eq, Structural)]
pub enum TransitionGuardConditionType {
    GreaterThan,
    GreaterThanOrEqual,
    LessThan,
    LessThanOrEqual,
    Equal,
    NotEqual,
}

/// The condition named `name` in the definition format, if any.
pub open spec fn condition_named(name: Seq<char>) -> Option<TransitionGuardConditionType> {
    if name == "GreaterThan"@ {
        Some(TransitionGuardConditionType::GreaterThan)
    } else if name == "GreaterThanOrEqual"@ {
        Some(TransitionGuardConditionType::GreaterThanOrEqual)
    } else if name == "LessThan"@ {
        Some(TransitionGuardConditionType::LessThan)
    } else if name == "LessThanOrEqual"@ {
        Some(TransitionGuardConditionType::LessThanOrEqual)
    } else if name == "Equal"@ {
        Some(TransitionGuardConditionType::Equal)
    } else if name == "NotEqual"@ {
        Some(TransitionGuardConditionType::NotEqual)
    } else {
        None
    }
}

/// The condition given by the `conditionType` field of a guard.
pub fn condition_type_from_json(condition_type: &str) -> (r: Option<TransitionGuardConditionType>)
    ensures
        r == condition_named(condition_type@),
{
    if same_text(condition_type, "GreaterThan") {
        Some(TransitionGuardConditionType::GreaterThan)
    } else if same_text(condition_type, "GreaterThanOrEqual") {
        Some(TransitionGuardConditionType::GreaterThanOrEqual)
    } else if same_text(condition_type, "LessThan") {
        Some(TransitionGuardConditionType::LessThan)
    } else if same_text(condition_type, "LessThanOrEqual") {
        Some(TransitionGuardConditionType::LessThanOrEqual)
    } else if same_text(condition_type, "Equal") {
        Some(TransitionGuardConditionType::Equal)
    } else if same_text(condition_type, "NotEqual") {
        Some(TransitionGuardConditionType::NotEqual)
    } else {
        None
    }
}

/// Ordering comparison — numeric guards only. Where `T`'s comparison follows
/// its specification, the result is the condition applied to `a` and `b`.
pub fn compare_ord<T: PartialOrd>(condition: &TransitionGuardConditionType, a: T, b: T) -> (r: bool)
    ensures
        T::obeys_partial_cmp_spec() && T::obeys_eq_spec() ==> r == match condition {
            TransitionGuardConditionType::GreaterThan => a.partial_cmp_spec(&b) == Some(
                Ordering::Greater,
            ),
            TransitionGuardConditionType::GreaterThanOrEqual => a.partial_cmp_spec(&b) matches Some(
                Ordering::Greater
                | Ordering::Equal,
            ),
            TransitionGuardConditionType::LessThan => a.partial_cmp_spec(&b) == Some(Ordering::Less),
            TransitionGuardConditionType::LessThanOrEqual => a.partial_cmp_spec(&b) matches Some(
                Ordering::Less
                | Ordering::Equal,
            ),
            TransitionGuardConditionType::Equal => a.eq_spec(&b),
            TransitionGuardConditionType::NotEqual => !a.eq_spec(&b),
        },
{
    match condition {
        TransitionGuardConditionType::GreaterThan => a > b,
        TransitionGuardConditionType::GreaterThanOrEqual => a >= b,
        TransitionGuardConditionType::LessThan => a < b,
        TransitionGuardConditionType::LessThanOrEqual => a <= b,
        TransitionGuardConditionType::Equal => a == b,
        TransitionGuardConditionType::NotEqual => a != b,
    }
}

/// Equality comparison — string and boolean guards. Ordering never matches.
pub fn compare_eq<T: PartialEq>(condition: &TransitionGuardConditionType, a: T, b: T) -> (r: bool)
    ensures
        T::obeys_eq_spec() ==> r == match condition {
            TransitionGuardConditionType::Equal => a.eq_spec(&b),
            TransitionGuardConditionType::NotEqual => !a.eq_spec(&b),
            _ => false,
        },
        !T::obeys_eq_spec() ==> (r ==> (*condition == TransitionGuardConditionType::Equal
            || *condition == TransitionGuardConditionType::NotEqual)),
{
    match condition {
        TransitionGuardConditionType::Equal => a == b,
        TransitionGuardConditionType::NotEqual => a != b,
        _ => false,
    }
}

/// Whether the IEEE-754 single-precision bit pattern `bits` is a NaN.
pub open spec fn is_nan_bits(bits: u32) -> bool {
    bits % 0x8000_0000 > 0x7F80_0000
}

/// Where the non-NaN value with bit pattern `bits` lies on the number line:
/// finite values and infinities keep their order, and both zeros sit at 0.
pub open spec fn number_line(bits: u32) -> int {
    if bits >= 0x8000_0000 {
        -((bits % 0x8000_0000) as int)
    } else {
        bits as int
    }
}

/// IEEE-754 comparison of two `f32` values given by their bit patterns: every
/// ordering or equality with a NaN is false, and `NotEqual` is the negation of
/// `Equal`.
pub open spec fn bits_compare(condition: TransitionGuardConditionType, a: u32, b: u32) -> bool {
    let ordered = !is_nan_bits(a) && !is_nan_bits(b);
    match condition {
        TransitionGuardConditionType::GreaterThan => ordered && number_line(a) > number_line(b),
        TransitionGuardConditionType::GreaterThanOrEqual => ordered && number_line(a) >= number_line(b),
        TransitionGuardConditionType::LessThan => ordered && number_line(a) < number_line(b),
        TransitionGuardConditionType::LessThanOrEqual => ordered && number_line(a) <= number_line(b),
        TransitionGuardConditionType::Equal => ordered && number_line(a) == number_line(b),
        TransitionGuardConditionType::NotEqual => !(ordered && number_line(a) == number_line(b)),
    }
}

/// `bits_compare` on values.
pub fn compare_bits(condition: &TransitionGuardConditionType, a: u32, b: u32) -> (r: bool)
    ensures
        r == bits_compare(*condition, a, b),
{
    let ordered = a % 0x8000_0000 <= 0x7F80_0000 && b % 0x8000_0000 <= 0x7F80_0000;
    let ka: i64 = if a >= 0x8000_0000 {
        -((a % 0x8000_0000) as i64)
    } else {
        a as i64
    };
    let kb: i64 = if b >= 0x8000_0000 {
        -((b % 0x8000_0000) as i64)
    } else {
        b as i64
    };
    match condition {
        TransitionGuardConditionType::GreaterThan => ordered && ka > kb,
        TransitionGuardConditionType::GreaterThanOrEqual => ordered && ka >= kb,
        TransitionGuardConditionType::LessThan => ordered && ka < kb,
        TransitionGuardConditionType::LessThanOrEqual => ordered && ka <= kb,
        TransitionGuardConditionType::Equal => ordered && ka == kb,
        TransitionGuardConditionType::NotEqual => !(ordered && ka == kb),
    }
}

/// An equality condition applied to whether two values are the same;
/// ordering conditions never hold.
pub open spec fn equality_holds(condition: TransitionGuardConditionType, same: bool) -> bool {
    match condition {
        TransitionGuardConditionType::Equal => same,
        TransitionGuardConditionType::NotEqual => !same,
        _ => false,
    }
}

/// A condition a transition waits for.
#[derive(Debug, PartialEq, Clone)]
pub enum Guard {
    Numeric {
        input_name: DotString,
        condition_type: TransitionGuardConditionType,
        compare_to: StringNumberBool,
    },
    String {
        input_name: DotString,
        condition_type: TransitionGuardConditionType,
        compare_to: StringNumberBool,
    },
    Boolean {
        input_name: DotString,
        condition_type: TransitionGuardConditionType,
        compare_to: StringBool,
    },
    Event { input_name: DotString },
}

/// The value of numeric input `key`: the elapsed time for the built-in
/// elapsed-time input, else the current value of a declared input.
pub open spec fn numeric_input(inputs: InputsView, elapsed_time: u32, key: Seq<char>) -> Option<u32> {
    if key == elapsed_time_key() {
        Some(elapsed_time)
    } else if inputs.numeric.contains_key(key) {
        Some(inputs.numeric[key].0)
    } else {
        None
    }
}

/// What a numeric reference resolves to: an `@`-reference names a built-in,
/// a `$`-reference a declared input; other text resolves to nothing.
pub open spec fn numeric_reference(inputs: InputsView, elapsed_time: u32, reference: Seq<char>) -> Option<u32> {
    if starts_with_char(reference, '@') {
        numeric_input(inputs, elapsed_time, reference)
    } else if starts_with_char(reference, '$') {
        numeric_input(inputs, elapsed_time, referenced_name(reference))
    } else {
        None
    }
}

/// Whether `guard` holds for these inputs, elapsed time and pending event.
/// A reference that resolves to nothing leaves the guard unsatisfied.
pub open spec fn guard_holds(
    guard: Guard,
    inputs: InputsView,
    elapsed_time: u32,
    event: Option<Seq<char>>,
) -> bool {
    match guard {
        Guard::Event { input_name } => event == Some(input_name@),
        Guard::Numeric { input_name, condition_type, compare_to } => {
            let rhs = match compare_to {
                StringNumberBool::F32(v) => Some(v),
                StringNumberBool::String(reference) => numeric_reference(
                    inputs,
                    elapsed_time,
                    reference@,
                ),
                StringNumberBool::Bool(_) => None,
            };
            match (numeric_input(inputs, elapsed_time, input_name@), rhs) {
                (Some(lhs), Some(rhs)) => bits_compare(condition_type, lhs, rhs),
                _ => false,
            }
        },
        Guard::String { input_name, condition_type, compare_to } => {
            &&& inputs.string.contains_key(input_name@)
            &&& compare_to is String
            &&& {
                let text = compare_to->String_0@;
                if starts_with_char(text, '$') {
                    &&& inputs.string.contains_key(referenced_name(text))
                    &&& equality_holds(
                        condition_type,
                        inputs.string[input_name@].0 == inputs.string[referenced_name(text)].0,
                    )
                } else {
                    equality_holds(condition_type, inputs.string[input_name@].0 == text)
                }
            }
        },
        Guard::Boolean { input_name, condition_type, compare_to } => {
            &&& inputs.boolean.contains_key(input_name@)
            &&& match compare_to {
                StringBool::Bool(v) => equality_holds(
                    condition_type,
                    inputs.boolean[input_name@].0 == v,
                ),
                StringBool::String(reference) => {
                    &&& inputs.boolean.contains_key(referenced_name(reference@))
                    &&& equality_holds(
                        condition_type,
                        inputs.boolean[input_name@].0 == inputs.boolean[referenced_name(
                            reference@,
                        )].0,
                    )
                },
            }
        },
    }
}

/// A string guard whose `compareTo` is a literal (no leading `$`) compares
/// its input's current value with that very text; with `$other` it compares
/// with the current value of the string input `other`. A boolean guard with
/// a literal compares with that literal. An event guard holds while the
/// event it names is pending.
pub proof fn law_guard_comparisons(
    name: DotString,
    condition: TransitionGuardConditionType,
    text: String,
    flag: bool,
    inputs: InputsView,
    elapsed_time: u32,
    event: Option<Seq<char>>,
)
    ensures
        !starts_with_char(text@, '$') ==> guard_holds(
            Guard::String { input_name: name, condition_type: condition, compare_to: StringNumberBool::String(text) },
            inputs,
            elapsed_time,
            event,
        ) == (inputs.string.contains_key(name@) && ((condition == TransitionGuardConditionType::Equal
            && inputs.string[name@].0 == text@) || (condition == TransitionGuardConditionType::NotEqual
            && inputs.string[name@].0 != text@))),
        starts_with_char(text@, '$') ==> guard_holds(
            Guard::String { input_name: name, condition_type: condition, compare_to: StringNumberBool::String(text) },
            inputs,
            elapsed_time,
            event,
        ) == (inputs.string.contains_key(name@) && inputs.string.contains_key(referenced_name(text@)) && ((
        condition == TransitionGuardConditionType::Equal && inputs.string[name@].0
            == inputs.string[referenced_name(text@)].0) || (condition == TransitionGuardConditionType::NotEqual
            && inputs.string[name@].0 != inputs.string[referenced_name(text@)].0))),
        guard_holds(
            Guard::Boolean { input_name: name, condition_type: condition, compare_to: StringBool::Bool(flag) },
            inputs,
            elapsed_time,
            event,
        ) == (inputs.boolean.contains_key(name@) && ((condition == TransitionGuardConditionType::Equal
            && inputs.boolean[name@].0 == flag) || (condition == TransitionGuardConditionType::NotEqual
            && inputs.boolean[name@].0 != flag))),
        guard_holds(Guard::Event { input_name: name }, inputs, elapsed_time, event) == (event == Some(name@)),
{
}

/// `equality_holds` on values.
fn check_equality(condition: &TransitionGuardConditionType, same: bool) -> (r: bool)
    ensures
        r == equality_holds(*condition, same),
{
    match condition {
        TransitionGuardConditionType::Equal => same,
        TransitionGuardConditionType::NotEqual => !same,
        _ => false,
    }
}

/// The value of numeric input `key` (see `numeric_input`).
pub fn numeric_input_value(inputs: &InputManager, elapsed_time: u32, key: &str) -> (r: Option<u32>)
    ensures
        r == numeric_input(inputs@, elapsed_time, key@),
{
    if is_elapsed_time_key(key) {
        Some(elapsed_time)
    } else {
        inputs.get_numeric(key)
    }
}

/// What a numeric reference resolves to (see `numeric_reference`).
pub fn resolve_numeric_ref(inputs: &InputManager, elapsed_time: u32, reference: &str) -> (r: Option<u32>)
    ensures
        r == numeric_reference(inputs@, elapsed_time, reference@),
{
    if str_starts_with_char(reference, '@') {
        numeric_input_value(inputs, elapsed_time, reference)
    } else if str_starts_with_char(reference, '$') {
        numeric_input_value(inputs, elapsed_time, strip_reference(reference).as_str())
    } else {
        None
    }
}

impl Guard {
    /// Whether the guard holds for the current inputs, the time spent in the
    /// current state (an `f32` bit pattern) and the event pending on this run,
    /// if any.
    pub fn is_satisfied(&self, inputs: &InputManager, elapsed_time: u32, event: Option<&DotString>) -> (r: bool)
        ensures
            r == guard_holds(
                *self,
                inputs@,
                elapsed_time,
                match event {
                    Some(e) => Some(e@),
                    None => None,
                },
            ),
    {
        match self {
            Guard::Event { input_name } => match event {
                Some(e) => *input_name == *e,
                None => false,
            },
            Guard::Numeric { input_name, condition_type, compare_to } => {
                let lhs = match numeric_input_value(inputs, elapsed_time, input_name.as_str()) {
                    Some(v) => v,
                    None => return false,
                };
                let rhs = match compare_to {
                    StringNumberBool::F32(value) => Some(*value),
                    StringNumberBool::String(reference) => resolve_numeric_ref(
                        inputs,
                        elapsed_time,
                        reference.as_str(),
                    ),
                    StringNumberBool::Bool(_) => None,
                };
                match rhs {
                    Some(rhs) => compare_bits(condition_type, lhs, rhs),
                    None => false,
                }
            },
            Guard::String { input_name, condition_type, compare_to } => {
                let lhs = match inputs.get_string(input_name.as_str()) {
                    Some(v) => v,
                    None => return false,
                };
                let text = match compare_to {
                    StringNumberBool::String(text) => text,
                    _ => return false,
                };
                if str_starts_with_char(text.as_str(), '$') {
                    let name = strip_reference(text.as_str());
                    match inputs.get_string(name.as_str()) {
                        Some(rhs) => check_equality(
                            condition_type,
                            chars_eq(&chars_of(lhs), &chars_of(rhs)),
                        ),
                        None => false,
                    }
                } else {
                    check_equality(condition_type, chars_eq(&chars_of(lhs), &chars_of(text.as_str())))
                }
            },
            Guard::Boolean { input_name, condition_type, compare_to } => {
                let lhs = match inputs.get_boolean(input_name.as_str()) {
                    Some(v) => v,
                    None => return false,
                };
                let rhs = match compare_to {
                    StringBool::Bool(value) => *value,
                    StringBool::String(reference) => {
                        let name = strip_reference(reference.as_str());
                        match inputs.get_boolean(name.as_str()) {
                            Some(v) => v,
                            None => return false,
                        }
                    },
                };
                check_equality(condition_type, lhs == rhs)
            },
        }
    }
}

/// The input a guard reads.
pub open spec fn guard_input(g: Guard) -> Seq<char> {
    match g {
        Guard::Numeric { input_name, .. } => input_name@,
        Guard::String { input_name, .. } => input_name@,
        Guard::Boolean { input_name, .. } => input_name@,
        Guard::Event { input_name } => input_name@,
    }
}

/// Whether two guards are the same but for where their input names are
/// stored.
pub open spec fn same_guard(a: Guard, b: Guard) -> bool {
    match (a, b) {
        (
            Guard::Numeric { input_name: n1, condition_type: c1, compare_to: v1 },
            Guard::Numeric { input_name: n2, condition_type: c2, compare_to: v2 },
        ) => n1@ == n2@ && c1 == c2 && v1 == v2,
        (
            Guard::String { input_name: n1, condition_type: c1, compare_to: v1 },
            Guard::String { input_name: n2, condition_type: c2, compare_to: v2 },
        ) => n1@ == n2@ && c1 == c2 && v1 == v2,
        (
            Guard::Boolean { input_name: n1, condition_type: c1, compare_to: v1 },
            Guard::Boolean { input_name: n2, condition_type: c2, compare_to: v2 },
        ) => n1@ == n2@ && c1 == c2 && v1 == v2,
        (Guard::Event { input_name: n1 }, Guard::Event { input_name: n2 }) => n1@ == n2@,
        _ => false,
    }
}

impl Guard {
    /// Give the guard's input name the interner's storage for that text.
    pub fn intern_identifiers(&mut self, interner: &mut DotStringInterner)
        ensures
            same_guard(*old(self), *final(self)),
            final(interner)@ == old(interner)@.insert(guard_input(*old(self))),
    {
        match self {
            Guard::Numeric { input_name, .. } => {
                *input_name = interner.intern(input_name.as_str());
            },
            Guard::String { input_name, .. } => {
                *input_name = interner.intern(input_name.as_str());
            },
            Guard::Boolean { input_name, .. } => {
                *input_name = interner.intern(input_name.as_str());
            },
            Guard::Event { input_name } => {
                *input_name = interner.intern(input_name.as_str());
            },
        }
    }
}

} // verus!
