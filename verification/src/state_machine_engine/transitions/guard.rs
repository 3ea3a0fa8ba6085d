//! Engine transition guards: what a transition waits for before it is taken.
use vstd::prelude::*;

use crate::state_machine::inputs::InputsView;
use crate::state_machine::transitions::guard::{
    bits_compare, compare_bits, equality_holds,
    TransitionGuardConditionType as Condition,
};
use crate::state_machine::{referenced_name, starts_with_char, str_starts_with_char, strip_reference};
use crate::state_machine_engine::inputs::InputManager;
use crate::state_machine_engine::state_machine::{StringBool, StringNumberBool};
use crate::text::{chars_eq, chars_of, same_text};

verus! {

/// How a guard compares its input with its value.
#[derive(Debug, Clone, Copy, PartialEq, Eq, Structural)]
pub enum TransitionGuardConditionType {
    GreaterThan,
    GreaterThanOrEqual,
    LessThan,
    LessThanOrEqual,
    Equal,
    NotEqual,
}

/// The same condition in the state machine's terms.
pub open spec fn as_condition(c: TransitionGuardConditionType) -> Condition {
    match c {
        TransitionGuardConditionType::GreaterThan => Condition::GreaterThan,
        TransitionGuardConditionType::GreaterThanOrEqual => Condition::GreaterThanOrEqual,
        TransitionGuardConditionType::LessThan => Condition::LessThan,
        TransitionGuardConditionType::LessThanOrEqual => Condition::LessThanOrEqual,
        TransitionGuardConditionType::Equal => Condition::Equal,
        TransitionGuardConditionType::NotEqual => Condition::NotEqual,
    }
}

/// `as_condition` on values.
fn to_condition(c: &TransitionGuardConditionType) -> (r: Condition)
    ensures
        r == as_condition(*c),
{
    match c {
        TransitionGuardConditionType::GreaterThan => Condition::GreaterThan,
        TransitionGuardConditionType::GreaterThanOrEqual => Condition::GreaterThanOrEqual,
        TransitionGuardConditionType::LessThan => Condition::LessThan,
        TransitionGuardConditionType::LessThanOrEqual => Condition::LessThanOrEqual,
        TransitionGuardConditionType::Equal => Condition::Equal,
        TransitionGuardConditionType::NotEqual => Condition::NotEqual,
    }
}

/// A condition a transition waits for.
#[derive(Debug, PartialEq, Clone)]
pub enum Guard {
    Numeric {
        input_name: String,
        condition_type: TransitionGuardConditionType,
        compare_to: StringNumberBool,
    },
    String {
        input_name: String,
        condition_type: TransitionGuardConditionType,
        compare_to: StringNumberBool,
    },
    Boolean {
        input_name: String,
        condition_type: TransitionGuardConditionType,
        compare_to: StringBool,
    },
    Event { input_name: String },
}

/// Whether a numeric guard holds: its input is declared, and `compareTo` is
/// a number or a `$`-reference to a declared numeric input, which the
/// condition (IEEE-754 comparison) accepts. Any other guard: false.
pub open spec fn numeric_guard_holds(guard: Guard, inputs: InputsView) -> bool {
    match guard {
        Guard::Numeric { input_name, condition_type, compare_to } => {
            &&& inputs.numeric.contains_key(input_name@)
            &&& match compare_to {
                StringNumberBool::F32(v) => bits_compare(
                    as_condition(condition_type),
                    inputs.numeric[input_name@].0,
                    v,
                ),
                StringNumberBool::String(reference) => {
                    &&& starts_with_char(reference@, '$')
                    &&& inputs.numeric.contains_key(referenced_name(reference@))
                    &&& bits_compare(
                        as_condition(condition_type),
                        inputs.numeric[input_name@].0,
                        inputs.numeric[referenced_name(reference@)].0,
                    )
                },
                StringNumberBool::Bool(_) => false,
            }
        },
        _ => false,
    }
}

/// Whether a string guard holds: its input is declared, and `compareTo` is a
/// string — a literal, or a `$`-reference to a declared string input — that
/// the equality condition accepts. Any other guard: false.
pub open spec fn string_guard_holds(guard: Guard, inputs: InputsView) -> bool {
    match guard {
        Guard::String { input_name, condition_type, compare_to } => {
            &&& inputs.string.contains_key(input_name@)
            &&& compare_to is String
            &&& {
                let text = compare_to->String_0@;
                if starts_with_char(text, '$') {
                    &&& inputs.string.contains_key(referenced_name(text))
                    &&& equality_holds(
                        as_condition(condition_type),
                        inputs.string[input_name@].0 == inputs.string[referenced_name(text)].0,
                    )
                } else {
                    equality_holds(as_condition(condition_type), inputs.string[input_name@].0 == text)
                }
            }
        },
        _ => false,
    }
}

/// Whether a boolean guard holds: its input is declared, and `compareTo` is a
/// boolean, or a reference (its leading `$`s dropped) to a declared boolean
/// input, that the equality condition accepts. Any other guard: false.
pub open spec fn boolean_guard_holds(guard: Guard, inputs: InputsView) -> bool {
    match guard {
        Guard::Boolean { input_name, condition_type, compare_to } => {
            &&& inputs.boolean.contains_key(input_name@)
            &&& match compare_to {
                StringBool::Bool(v) => equality_holds(
                    as_condition(condition_type),
                    inputs.boolean[input_name@].0 == v,
                ),
                StringBool::String(reference) => {
                    &&& inputs.boolean.contains_key(referenced_name(reference@))
                    &&& equality_holds(
                        as_condition(condition_type),
                        inputs.boolean[input_name@].0 == inputs.boolean[referenced_name(
                            reference@,
                        )].0,
                    )
                },
            }
        },
        _ => false,
    }
}

/// Whether an equality condition accepts two texts: `Equal` when they are
/// the same, `NotEqual` when they differ; no ordering condition does.
pub open spec fn texts_accepted(condition: TransitionGuardConditionType, a: Seq<char>, b: Seq<char>) -> bool {
    ||| (condition == TransitionGuardConditionType::Equal && a == b)
    ||| (condition == TransitionGuardConditionType::NotEqual && a != b)
}

/// A string guard whose `compareTo` is a literal (no leading `$`) compares
/// its input's current value with that very text; one whose `compareTo` is
/// `$other` compares it with the current value of the string input `other`.
/// An undeclared input, or a `compareTo` that is not text, never holds.
pub proof fn law_string_guard(
    name: String,
    condition: TransitionGuardConditionType,
    compare_to: StringNumberBool,
    inputs: InputsView,
)
    ensures
        (compare_to matches StringNumberBool::String(text) && !starts_with_char(text@, '$')) ==> string_guard_holds(
            Guard::String { input_name: name, condition_type: condition, compare_to },
            inputs,
        ) == (inputs.string.contains_key(name@) && texts_accepted(
            condition,
            inputs.string[name@].0,
            compare_to->String_0@,
        )),
        (compare_to matches StringNumberBool::String(text) && starts_with_char(text@, '$')) ==> string_guard_holds(
            Guard::String { input_name: name, condition_type: condition, compare_to },
            inputs,
        ) == (inputs.string.contains_key(name@) && inputs.string.contains_key(referenced_name(compare_to->String_0@))
            && texts_accepted(
            condition,
            inputs.string[name@].0,
            inputs.string[referenced_name(compare_to->String_0@)].0,
        )),
        !(compare_to is String) ==> !string_guard_holds(
            Guard::String { input_name: name, condition_type: condition, compare_to },
            inputs,
        ),
{
}

/// A boolean guard with a literal compares its input's current value with
/// it: `Equal` holds when they agree, `NotEqual` when they differ.
pub proof fn law_boolean_guard_literal(
    name: String,
    condition: TransitionGuardConditionType,
    value: bool,
    inputs: InputsView,
)
    ensures
        boolean_guard_holds(
            Guard::Boolean { input_name: name, condition_type: condition, compare_to: StringBool::Bool(value) },
            inputs,
        ) == (inputs.boolean.contains_key(name@) && ((condition == TransitionGuardConditionType::Equal
            && inputs.boolean[name@].0 == value) || (condition == TransitionGuardConditionType::NotEqual
            && inputs.boolean[name@].0 != value))),
{
}

/// A numeric guard with a literal compares its input's current value with
/// it: equal bit patterns of a value that is not NaN satisfy `Equal`,
/// `GreaterThanOrEqual` and `LessThanOrEqual` and fail `NotEqual`; an
/// undeclared input never holds.
pub proof fn law_numeric_guard_literal(
    name: String,
    condition: TransitionGuardConditionType,
    value: u32,
    inputs: InputsView,
)
    ensures
        !inputs.numeric.contains_key(name@) ==> !numeric_guard_holds(
            Guard::Numeric { input_name: name, condition_type: condition, compare_to: StringNumberBool::F32(value) },
            inputs,
        ),
        inputs.numeric.contains_key(name@) && inputs.numeric[name@].0 == value && value % 0x8000_0000 <= 0x7F80_0000
            ==> numeric_guard_holds(
            Guard::Numeric { input_name: name, condition_type: condition, compare_to: StringNumberBool::F32(value) },
            inputs,
        ) == (condition == TransitionGuardConditionType::Equal || condition
            == TransitionGuardConditionType::GreaterThanOrEqual || condition
            == TransitionGuardConditionType::LessThanOrEqual),
{
}

/// A numeric guard whose `compareTo` is `$other` compares its input's
/// current value with the current value of the numeric input `other`; a text
/// without `$` never holds, nor does a boolean.
pub proof fn law_numeric_guard_reference(
    name: String,
    condition: TransitionGuardConditionType,
    reference: String,
    flag: bool,
    inputs: InputsView,
)
    ensures
        starts_with_char(reference@, '$') ==> numeric_guard_holds(
            Guard::Numeric {
                input_name: name,
                condition_type: condition,
                compare_to: StringNumberBool::String(reference),
            },
            inputs,
        ) == (inputs.numeric.contains_key(name@) && inputs.numeric.contains_key(referenced_name(reference@))
            && bits_compare(
            as_condition(condition),
            inputs.numeric[name@].0,
            inputs.numeric[referenced_name(reference@)].0,
        )),
        !starts_with_char(reference@, '$') ==> !numeric_guard_holds(
            Guard::Numeric {
                input_name: name,
                condition_type: condition,
                compare_to: StringNumberBool::String(reference),
            },
            inputs,
        ),
        !numeric_guard_holds(
            Guard::Numeric { input_name: name, condition_type: condition, compare_to: StringNumberBool::Bool(flag) },
            inputs,
        ),
{
}

/// An event guard holds for exactly the event it names.
pub proof fn law_event_guard(name: String, event: Seq<char>)
    ensures
        event_guard_holds(Guard::Event { input_name: name }, event) == (name@ == event),
{
}

/// Whether an event guard waits for `event`. Any other guard: false.
pub open spec fn event_guard_holds(guard: Guard, event: Seq<char>) -> bool {
    match guard {
        Guard::Event { input_name } => input_name@ == event,
        _ => false,
    }
}

/// Evaluation of a guard against the inputs, one method per kind of guard.
pub trait GuardTrait {
    fn string_input_is_satisfied(&self, inputs: &InputManager) -> bool;

    fn boolean_input_is_satisfied(&self, inputs: &InputManager) -> bool;

    fn numeric_input_is_satisfied(&self, inputs: &InputManager) -> bool;

    fn event_input_is_satisfied(&self, event: &str) -> bool;
}

/// An equality condition applied to `same`.
fn check_equality(condition: &TransitionGuardConditionType, same: bool) -> (r: bool)
    ensures
        r == equality_holds(as_condition(*condition), same),
{
    match condition {
        TransitionGuardConditionType::Equal => same,
        TransitionGuardConditionType::NotEqual => !same,
        _ => false,
    }
}

impl GuardTrait for Guard {
    fn string_input_is_satisfied(&self, inputs: &InputManager) -> (r: bool)
        ensures
            r == string_guard_holds(*self, inputs@),
    {
        match self {
            Guard::String { input_name, condition_type, compare_to } => {
                let input_value = match inputs.get_string(input_name.as_str()) {
                    Some(v) => v,
                    None => return false,
                };
                let text = match compare_to {
                    StringNumberBool::String(text) => text,
                    _ => return false,
                };
                if str_starts_with_char(text.as_str(), '$') {
                    let name = strip_reference(text.as_str());
                    match inputs.get_string(name.as_str()) {
                        Some(value) => check_equality(condition_type, same_text(input_value, value)),
                        None => false,
                    }
                } else {
                    check_equality(condition_type, same_text(input_value, text.as_str()))
                }
            },
            _ => false,
        }
    }

    fn boolean_input_is_satisfied(&self, inputs: &InputManager) -> (r: bool)
        ensures
            r == boolean_guard_holds(*self, inputs@),
    {
        match self {
            Guard::Boolean { input_name, condition_type, compare_to } => {
                let input_value = match inputs.get_boolean(input_name.as_str()) {
                    Some(v) => v,
                    None => return false,
                };
                match compare_to {
                    StringBool::Bool(value) => check_equality(condition_type, input_value == *value),
                    StringBool::String(reference) => {
                        let name = strip_reference(reference.as_str());
                        match inputs.get_boolean(name.as_str()) {
                            Some(value) => check_equality(condition_type, input_value == value),
                            None => false,
                        }
                    },
                }
            },
            _ => false,
        }
    }

    fn numeric_input_is_satisfied(&self, inputs: &InputManager) -> (r: bool)
        ensures
            r == numeric_guard_holds(*self, inputs@),
    {
        match self {
            Guard::Numeric { input_name, condition_type, compare_to } => {
                let input_value = match inputs.get_numeric(input_name.as_str()) {
                    Some(v) => v,
                    None => return false,
                };
                match compare_to {
                    StringNumberBool::String(reference) => {
                        if !str_starts_with_char(reference.as_str(), '$') {
                            return false;
                        }
                        let name = strip_reference(reference.as_str());
                        match inputs.get_numeric(name.as_str()) {
                            Some(value) => compare_bits(&to_condition(condition_type), input_value, value),
                            None => false,
                        }
                    },
                    StringNumberBool::F32(value) => compare_bits(
                        &to_condition(condition_type),
                        input_value,
                        *value,
                    ),
                    StringNumberBool::Bool(_) => false,
                }
            },
            _ => false,
        }
    }

    fn event_input_is_satisfied(&self, event: &str) -> (r: bool)
        ensures
            r == event_guard_holds(*self, event@),
    {
        match self {
            Guard::Event { input_name } => same_text(input_name.as_str(), event),
            _ => false,
        }
    }
}

} // verus!
