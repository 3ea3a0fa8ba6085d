//! What running an action asks of the engine and the player, decided from
//! the inputs, the elapsed time and the `open_url` policy. The engine
//! performs the effect: it does the `f32` arithmetic, writes the input (and
//! tells its observers), drives the player, or hands a command to the host.
use vstd::prelude::*;

use crate::state_machine::actions::whitelist::{allows, EntryView, Whitelist};
use crate::state_machine::actions::{
    clamp_bound, random_bound, resolve_clamp_bound, resolve_random_bound, Action,
    StateMachineActionError,
};
use crate::state_machine::definition::{StringBool, StringNumber};
use crate::state_machine::events::Event;
use crate::state_machine::inputs::{InputManager, InputsView};
use crate::state_machine::transitions::guard::{
    bits_compare, compare_bits, is_nan_bits, number_line, numeric_input, numeric_input_value, numeric_reference,
    resolve_numeric_ref, TransitionGuardConditionType,
};
use crate::state_machine::{elapsed_time_key, referenced_name, strip_reference};
use crate::string::DotString;
use crate::state_machine_engine::actions::utils::{open_url_command_text, NativeOpenUrl};
use crate::text::{chars_of, contains_char, slice_chars, string_of};

verus! {

/// The bit pattern of the `f32` value `1.0`: the default step of an
/// increment or a decrement, and the default upper bound of a random value.
pub const ONE_BITS: u32 = 0x3f80_0000;

/// What an action asks for. Numbers are IEEE-754 bit patterns of `f32`
/// values.
#[derive(Debug, Clone, PartialEq)]
pub enum ActionEffect {
    /// Nothing: the input to change is not declared, or a value it needs
    /// does not resolve.
    Nothing,
    /// Set the numeric input to `current + amount`.
    AddNumeric { input_name: String, current: u32, amount: u32 },
    /// Set the numeric input to `current - amount`.
    SubtractNumeric { input_name: String, current: u32, amount: u32 },
    /// Set the numeric input to `current * operand`, when that changes it.
    MultiplyNumeric { input_name: String, current: u32, operand: u32 },
    /// Set the numeric input to the floor of `current`, when that changes it.
    FloorNumeric { input_name: String, current: u32 },
    /// Set the numeric input to a random value from `min` to `max`: a whole
    /// step from `min` when `integer` holds.
    RandomNumeric { input_name: String, min: u32, max: u32, integer: bool },
    SetBoolean { input_name: String, value: bool },
    SetNumeric { input_name: String, value: u32 },
    SetString { input_name: String, value: String },
    /// Fire the event input (the engine ignores an undeclared one).
    Fire { input_name: String },
    Reset { input_name: String },
    SetTheme { theme_id: String },
    /// Show this frame, clamped to the animation's frames.
    SetFrame { frame: u32 },
    /// Show the frame at this percentage of the animation, clamped to 0–100.
    SetProgress { percentage: u32 },
    FireCustomEvent { value: String },
    /// Hand this command to the host, which opens the link.
    OpenUrl { command: String },
}

/// An effect as a mathematical value.
pub ghost enum EffectView {
    Nothing,
    AddNumeric { input_name: Seq<char>, current: u32, amount: u32 },
    SubtractNumeric { input_name: Seq<char>, current: u32, amount: u32 },
    MultiplyNumeric { input_name: Seq<char>, current: u32, operand: u32 },
    FloorNumeric { input_name: Seq<char>, current: u32 },
    RandomNumeric { input_name: Seq<char>, min: u32, max: u32, integer: bool },
    SetBoolean { input_name: Seq<char>, value: bool },
    SetNumeric { input_name: Seq<char>, value: u32 },
    SetString { input_name: Seq<char>, value: Seq<char> },
    Fire { input_name: Seq<char> },
    Reset { input_name: Seq<char> },
    SetTheme { theme_id: Seq<char> },
    SetFrame { frame: u32 },
    SetProgress { percentage: u32 },
    FireCustomEvent { value: Seq<char> },
    OpenUrl { command: Seq<char> },
}

impl View for ActionEffect {
    type V = EffectView;

    open spec fn view(&self) -> EffectView {
        match self {
            ActionEffect::Nothing => EffectView::Nothing,
            ActionEffect::AddNumeric { input_name, current, amount } => EffectView::AddNumeric {
                input_name: input_name@,
                current: *current,
                amount: *amount,
            },
            ActionEffect::SubtractNumeric { input_name, current, amount } => EffectView::SubtractNumeric {
                input_name: input_name@,
                current: *current,
                amount: *amount,
            },
            ActionEffect::MultiplyNumeric { input_name, current, operand } => EffectView::MultiplyNumeric {
                input_name: input_name@,
                current: *current,
                operand: *operand,
            },
            ActionEffect::FloorNumeric { input_name, current } => EffectView::FloorNumeric {
                input_name: input_name@,
                current: *current,
            },
            ActionEffect::RandomNumeric { input_name, min, max, integer } => EffectView::RandomNumeric {
                input_name: input_name@,
                min: *min,
                max: *max,
                integer: *integer,
            },
            ActionEffect::SetBoolean { input_name, value } => EffectView::SetBoolean {
                input_name: input_name@,
                value: *value,
            },
            ActionEffect::SetNumeric { input_name, value } => EffectView::SetNumeric {
                input_name: input_name@,
                value: *value,
            },
            ActionEffect::SetString { input_name, value } => EffectView::SetString {
                input_name: input_name@,
                value: value@,
            },
            ActionEffect::Fire { input_name } => EffectView::Fire { input_name: input_name@ },
            ActionEffect::Reset { input_name } => EffectView::Reset { input_name: input_name@ },
            ActionEffect::SetTheme { theme_id } => EffectView::SetTheme { theme_id: theme_id@ },
            ActionEffect::SetFrame { frame } => EffectView::SetFrame { frame: *frame },
            ActionEffect::SetProgress { percentage } => EffectView::SetProgress { percentage: *percentage },
            ActionEffect::FireCustomEvent { value } => EffectView::FireCustomEvent { value: value@ },
            ActionEffect::OpenUrl { command } => EffectView::OpenUrl { command: command@ },
        }
    }
}

/// The current value of boolean input `key`, if it is declared.
pub open spec fn boolean_read(inputs: InputsView, key: Seq<char>) -> Option<bool> {
    if inputs.boolean.contains_key(key) {
        Some(inputs.boolean[key].0)
    } else {
        None
    }
}

/// The current value of string input `key`, if it is declared.
pub open spec fn string_read(inputs: InputsView, key: Seq<char>) -> Option<Seq<char>> {
    if inputs.string.contains_key(key) {
        Some(inputs.string[key].0)
    } else {
        None
    }
}

/// The step of an increment or a decrement: the literal, what a reference
/// resolves to (see `numeric_reference`), or `1.0` when there is no value or
/// the reference resolves to nothing.
pub open spec fn step_of(value: Option<StringNumber>, inputs: InputsView, elapsed_time: u32) -> u32 {
    match value {
        None => ONE_BITS,
        Some(StringNumber::F32(v)) => v,
        Some(StringNumber::String(s)) => match numeric_reference(inputs, elapsed_time, s@) {
            Some(v) => v,
            None => ONE_BITS,
        },
    }
}

/// A number or what a reference resolves to.
pub open spec fn number_of(value: StringNumber, inputs: InputsView, elapsed_time: u32) -> Option<u32> {
    match value {
        StringNumber::F32(v) => Some(v),
        StringNumber::String(s) => numeric_reference(inputs, elapsed_time, s@),
    }
}

/// What the URL of an `OpenUrl` action resolves to: the string input a
/// `$`-reference names, or the text itself.
pub open spec fn resolved_url(url: Seq<char>, inputs: InputsView) -> Seq<char> {
    if url.len() > 0 && url[0] == '$' {
        match string_read(inputs, referenced_name(url)) {
            Some(v) => v,
            None => url,
        }
    } else {
        url
    }
}

/// What a `SetTheme` value resolves to: the string input named after one
/// leading `$`, or the text itself.
pub open spec fn resolved_theme(value: Seq<char>, inputs: InputsView) -> Seq<char> {
    if value.len() > 0 && value[0] == '$' {
        match string_read(inputs, value.drop_first()) {
            Some(v) => v,
            None => value,
        }
    } else {
        value
    }
}

/// `f32::max` on bit patterns: a NaN argument gives the other one; else the
/// larger on the number line, `a` when the two are equal there (the two
/// zeros, which are equal as `f32` values).
pub open spec fn max_of_bits(a: u32, b: u32) -> u32 {
    if is_nan_bits(a) {
        b
    } else if is_nan_bits(b) {
        a
    } else if number_line(b) > number_line(a) {
        b
    } else {
        a
    }
}

/// `f32::min` on bit patterns: a NaN argument gives the other one; else the
/// smaller on the number line, `a` when the two are equal there.
pub open spec fn min_of_bits(a: u32, b: u32) -> u32 {
    if is_nan_bits(a) {
        b
    } else if is_nan_bits(b) {
        a
    } else if number_line(b) < number_line(a) {
        b
    } else {
        a
    }
}

/// `current.max(lo).min(hi)`, each step only where its bound is given.
pub open spec fn clamped_bits(current: u32, lo: Option<u32>, hi: Option<u32>) -> u32 {
    let raised = match lo {
        Some(l) => max_of_bits(current, l),
        None => current,
    };
    match hi {
        Some(h) => min_of_bits(raised, h),
        None => raised,
    }
}

/// `max_of_bits` on values.
fn max_bits(a: u32, b: u32) -> (r: u32)
    ensures
        r == max_of_bits(a, b),
{
    if a % 0x8000_0000 > 0x7F80_0000 {
        b
    } else if b % 0x8000_0000 > 0x7F80_0000 {
        a
    } else if compare_bits(&TransitionGuardConditionType::GreaterThan, b, a) {
        b
    } else {
        a
    }
}

/// `min_of_bits` on values.
fn min_bits(a: u32, b: u32) -> (r: u32)
    ensures
        r == min_of_bits(a, b),
{
    if a % 0x8000_0000 > 0x7F80_0000 {
        b
    } else if b % 0x8000_0000 > 0x7F80_0000 {
        a
    } else if compare_bits(&TransitionGuardConditionType::LessThan, b, a) {
        b
    } else {
        a
    }
}

/// What an action asks for, given the inputs and the time spent in the
/// current state (for the built-in elapsed-time input).
pub open spec fn action_effect(
    action: Action,
    inputs: InputsView,
    elapsed_time: u32,
    whitelist: Set<EntryView>,
    requires_user_interaction: bool,
    last_pointer_event: Option<Event>,
) -> Result<EffectView, StateMachineActionError> {
    match action {
        Action::Increment { input_name, value } => Ok(
            match numeric_input(inputs, elapsed_time, input_name@) {
                Some(current) => EffectView::AddNumeric {
                    input_name: input_name@,
                    current,
                    amount: step_of(value, inputs, elapsed_time),
                },
                None => EffectView::Nothing,
            },
        ),
        Action::Decrement { input_name, value } => Ok(
            match numeric_input(inputs, elapsed_time, input_name@) {
                Some(current) => EffectView::SubtractNumeric {
                    input_name: input_name@,
                    current,
                    amount: step_of(value, inputs, elapsed_time),
                },
                None => EffectView::Nothing,
            },
        ),
        Action::Toggle { input_name } => Ok(
            match boolean_read(inputs, input_name@) {
                Some(b) => EffectView::SetBoolean { input_name: input_name@, value: !b },
                None => EffectView::Nothing,
            },
        ),
        Action::SetBoolean { input_name, value } => Ok(
            if boolean_read(inputs, input_name@) is None {
                EffectView::Nothing
            } else {
                match value {
                    StringBool::Bool(b) => EffectView::SetBoolean { input_name: input_name@, value: b },
                    StringBool::String(s) => match boolean_read(inputs, referenced_name(s@)) {
                        Some(b) => EffectView::SetBoolean { input_name: input_name@, value: b },
                        None => EffectView::Nothing,
                    },
                }
            },
        ),
        Action::SetNumeric { input_name, value } => Ok(
            if numeric_input(inputs, elapsed_time, input_name@) is None {
                EffectView::Nothing
            } else {
                match number_of(value, inputs, elapsed_time) {
                    Some(v) => EffectView::SetNumeric { input_name: input_name@, value: v },
                    None => EffectView::Nothing,
                }
            },
        ),
        Action::SetRandom { input_name, min, max, integer } => Ok(
            if numeric_input(inputs, elapsed_time, input_name@) is None {
                EffectView::Nothing
            } else {
                match (random_bound(inputs, elapsed_time, min, 0), random_bound(inputs, elapsed_time, max, ONE_BITS)) {
                    (Ok(lo), Ok(hi)) => if bits_compare(TransitionGuardConditionType::GreaterThan, lo, hi) {
                        EffectView::Nothing
                    } else {
                        EffectView::RandomNumeric {
                            input_name: input_name@,
                            min: lo,
                            max: hi,
                            integer: integer == Some(true),
                        }
                    },
                    _ => EffectView::Nothing,
                }
            },
        ),
        Action::Multiply { input_name, value } => Ok(
            match (numeric_input(inputs, elapsed_time, input_name@), number_of(value, inputs, elapsed_time)) {
                (Some(current), Some(operand)) => EffectView::MultiplyNumeric {
                    input_name: input_name@,
                    current,
                    operand,
                },
                _ => EffectView::Nothing,
            },
        ),
        Action::Floor { input_name } => Ok(
            match numeric_input(inputs, elapsed_time, input_name@) {
                Some(current) => EffectView::FloorNumeric { input_name: input_name@, current },
                None => EffectView::Nothing,
            },
        ),
        Action::Clamp { input_name, min, max } => Ok(
            match numeric_input(inputs, elapsed_time, input_name@) {
                None => EffectView::Nothing,
                Some(current) => match (clamp_bound(inputs, elapsed_time, min), clamp_bound(inputs, elapsed_time, max)) {
                    (Ok(lo), Ok(hi)) => if lo is None && hi is None {
                        EffectView::Nothing
                    } else if lo is Some && hi is Some && bits_compare(
                        TransitionGuardConditionType::GreaterThan,
                        lo->0,
                        hi->0,
                    ) {
                        EffectView::Nothing
                    } else if bits_compare(
                        TransitionGuardConditionType::NotEqual,
                        clamped_bits(current, lo, hi),
                        current,
                    ) {
                        EffectView::SetNumeric { input_name: input_name@, value: clamped_bits(current, lo, hi) }
                    } else {
                        EffectView::Nothing
                    },
                    _ => EffectView::Nothing,
                },
            },
        ),
        Action::SetString { input_name, value } => Ok(
            if string_read(inputs, input_name@) is None {
                EffectView::Nothing
            } else {
                match string_read(inputs, referenced_name(value@)) {
                    Some(v) => EffectView::SetString { input_name: input_name@, value: v },
                    None => EffectView::SetString { input_name: input_name@, value: value@ },
                }
            },
        ),
        Action::Fire { input_name } => Ok(EffectView::Fire { input_name: input_name@ }),
        Action::Reset { input_name } => Ok(EffectView::Reset { input_name: input_name@ }),
        Action::SetTheme { value } => {
            let theme = resolved_theme(value@, inputs);
            if theme.contains('\0') {
                Err(StateMachineActionError::ParsingError)
            } else {
                Ok(EffectView::SetTheme { theme_id: theme })
            }
        },
        Action::SetFrame { value } => match number_of(value, inputs, elapsed_time) {
            Some(v) => Ok(EffectView::SetFrame { frame: v }),
            None => Err(StateMachineActionError::ExecuteError),
        },
        Action::SetProgress { value } => Ok(
            match number_of(value, inputs, elapsed_time) {
                Some(v) => EffectView::SetProgress { percentage: v },
                None => EffectView::Nothing,
            },
        ),
        Action::FireCustomEvent { value } => Ok(EffectView::FireCustomEvent { value: value@ }),
        Action::OpenUrl { url, target } => {
            let resolved = resolved_url(url@, inputs);
            if !allows(whitelist, resolved) {
                Err(StateMachineActionError::ExecuteError)
            } else if requires_user_interaction && !(last_pointer_event matches Some(e) && (e is PointerDown
                || e is Click)) {
                Err(StateMachineActionError::ExecuteError)
            } else {
                Ok(EffectView::OpenUrl { command: open_url_command_text(resolved, target@) })
            }
        },
    }
}

/// The step of an increment or a decrement (see `step_of`).
fn step(value: &Option<StringNumber>, inputs: &InputManager, elapsed_time: u32) -> (r: u32)
    ensures
        r == step_of(*value, inputs@, elapsed_time),
{
    match value {
        None => ONE_BITS,
        Some(StringNumber::F32(v)) => *v,
        Some(StringNumber::String(s)) => match resolve_numeric_ref(inputs, elapsed_time, s.as_str()) {
            Some(v) => v,
            None => ONE_BITS,
        },
    }
}

/// A number or what a reference resolves to (see `number_of`).
fn number(value: &StringNumber, inputs: &InputManager, elapsed_time: u32) -> (r: Option<u32>)
    ensures
        r == number_of(*value, inputs@, elapsed_time),
{
    match value {
        StringNumber::F32(v) => Some(*v),
        StringNumber::String(s) => resolve_numeric_ref(inputs, elapsed_time, s.as_str()),
    }
}

/// The current value of string input `key`, copied.
fn read_string(inputs: &InputManager, key: &str) -> (r: Option<String>)
    ensures
        match r {
            Some(v) => string_read(inputs@, key@) == Some(v@),
            None => string_read(inputs@, key@) is None,
        },
{
    match inputs.get_string(key) {
        Some(v) => Some(v.to_owned()),
        None => None,
    }
}

/// What running `action` asks of the engine (see `action_effect`): the
/// built-in elapsed-time input reads as `elapsed_time`; `OpenUrl` needs its
/// URL allowed by `whitelist`, and, when `requires_user_interaction` holds,
/// the most recent pointer event to be a press or a click.
pub fn resolve_action(
    action: &Action,
    inputs: &InputManager,
    elapsed_time: u32,
    whitelist: &Whitelist,
    requires_user_interaction: bool,
    last_pointer_event: Option<&Event>,
) -> (r: Result<ActionEffect, StateMachineActionError>)
    ensures
        ({
            let expected = action_effect(
                *action,
                inputs@,
                elapsed_time,
                whitelist@,
                requires_user_interaction,
                match last_pointer_event {
                    Some(e) => Some(*e),
                    None => None,
                },
            );
            match r {
                Ok(e) => expected == Ok::<EffectView, StateMachineActionError>(e@),
                Err(x) => expected == Err::<EffectView, StateMachineActionError>(x),
            }
        }),
{
    match action {
        Action::Increment { input_name, value } => Ok(
            match numeric_input_value(inputs, elapsed_time, input_name.as_str()) {
                Some(current) => ActionEffect::AddNumeric {
                    input_name: input_name.as_str().to_owned(),
                    current,
                    amount: step(value, inputs, elapsed_time),
                },
                None => ActionEffect::Nothing,
            },
        ),
        Action::Decrement { input_name, value } => Ok(
            match numeric_input_value(inputs, elapsed_time, input_name.as_str()) {
                Some(current) => ActionEffect::SubtractNumeric {
                    input_name: input_name.as_str().to_owned(),
                    current,
                    amount: step(value, inputs, elapsed_time),
                },
                None => ActionEffect::Nothing,
            },
        ),
        Action::Toggle { input_name } => Ok(
            match inputs.get_boolean(input_name.as_str()) {
                Some(b) => ActionEffect::SetBoolean { input_name: input_name.as_str().to_owned(), value: !b },
                None => ActionEffect::Nothing,
            },
        ),
        Action::SetBoolean { input_name, value } => {
            if inputs.get_boolean(input_name.as_str()).is_none() {
                return Ok(ActionEffect::Nothing);
            }
            Ok(
                match value {
                    StringBool::Bool(b) => ActionEffect::SetBoolean {
                        input_name: input_name.as_str().to_owned(),
                        value: *b,
                    },
                    StringBool::String(s) => match inputs.get_boolean(strip_reference(s.as_str()).as_str()) {
                        Some(b) => ActionEffect::SetBoolean { input_name: input_name.as_str().to_owned(), value: b },
                        None => ActionEffect::Nothing,
                    },
                },
            )
        },
        Action::SetNumeric { input_name, value } => {
            if numeric_input_value(inputs, elapsed_time, input_name.as_str()).is_none() {
                return Ok(ActionEffect::Nothing);
            }
            Ok(
                match number(value, inputs, elapsed_time) {
                    Some(v) => ActionEffect::SetNumeric { input_name: input_name.as_str().to_owned(), value: v },
                    None => ActionEffect::Nothing,
                },
            )
        },
        Action::SetRandom { input_name, min, max, integer } => {
            if numeric_input_value(inputs, elapsed_time, input_name.as_str()).is_none() {
                return Ok(ActionEffect::Nothing);
            }
            let lo = match resolve_random_bound(inputs, elapsed_time, min, 0) {
                Ok(v) => v,
                Err(()) => return Ok(ActionEffect::Nothing),
            };
            let hi = match resolve_random_bound(inputs, elapsed_time, max, ONE_BITS) {
                Ok(v) => v,
                Err(()) => return Ok(ActionEffect::Nothing),
            };
            if compare_bits(&TransitionGuardConditionType::GreaterThan, lo, hi) {
                return Ok(ActionEffect::Nothing);
            }
            let whole = match integer {
                Some(true) => true,
                _ => false,
            };
            Ok(ActionEffect::RandomNumeric { input_name: input_name.as_str().to_owned(), min: lo, max: hi, integer: whole })
        },
        Action::Multiply { input_name, value } => {
            let current = match numeric_input_value(inputs, elapsed_time, input_name.as_str()) {
                Some(v) => v,
                None => return Ok(ActionEffect::Nothing),
            };
            Ok(
                match number(value, inputs, elapsed_time) {
                    Some(operand) => ActionEffect::MultiplyNumeric {
                        input_name: input_name.as_str().to_owned(),
                        current,
                        operand,
                    },
                    None => ActionEffect::Nothing,
                },
            )
        },
        Action::Floor { input_name } => Ok(
            match numeric_input_value(inputs, elapsed_time, input_name.as_str()) {
                Some(current) => ActionEffect::FloorNumeric { input_name: input_name.as_str().to_owned(), current },
                None => ActionEffect::Nothing,
            },
        ),
        Action::Clamp { input_name, min, max } => {
            let current = match numeric_input_value(inputs, elapsed_time, input_name.as_str()) {
                Some(v) => v,
                None => return Ok(ActionEffect::Nothing),
            };
            let (lo, hi) = match (resolve_clamp_bound(inputs, elapsed_time, min), resolve_clamp_bound(inputs, elapsed_time, max)) {
                (Ok(lo), Ok(hi)) => (lo, hi),
                _ => return Ok(ActionEffect::Nothing),
            };
            if lo.is_none() && hi.is_none() {
                return Ok(ActionEffect::Nothing);
            }
            if let (Some(l), Some(h)) = (lo, hi) {
                if compare_bits(&TransitionGuardConditionType::GreaterThan, l, h) {
                    return Ok(ActionEffect::Nothing);
                }
            }
            let raised = match lo {
                Some(l) => max_bits(current, l),
                None => current,
            };
            let value = match hi {
                Some(h) => min_bits(raised, h),
                None => raised,
            };
            if compare_bits(&TransitionGuardConditionType::NotEqual, value, current) {
                Ok(ActionEffect::SetNumeric { input_name: input_name.as_str().to_owned(), value })
            } else {
                Ok(ActionEffect::Nothing)
            }
        },
        Action::SetString { input_name, value } => {
            if inputs.get_string(input_name.as_str()).is_none() {
                return Ok(ActionEffect::Nothing);
            }
            Ok(
                match read_string(inputs, strip_reference(value.as_str()).as_str()) {
                    Some(v) => ActionEffect::SetString { input_name: input_name.as_str().to_owned(), value: v },
                    None => ActionEffect::SetString { input_name: input_name.as_str().to_owned(), value: value.clone() },
                },
            )
        },
        Action::Fire { input_name } => Ok(ActionEffect::Fire { input_name: input_name.as_str().to_owned() }),
        Action::Reset { input_name } => Ok(ActionEffect::Reset { input_name: input_name.as_str().to_owned() }),
        Action::SetTheme { value } => {
            let text = chars_of(value.as_str());
            let theme = if text.len() > 0 && text[0] == '$' {
                let key = string_of(&slice_chars(&text, 1, text.len()));
                proof {
                    assert(text@.subrange(1, text@.len() as int) =~= value@.drop_first());
                }
                match read_string(inputs, key.as_str()) {
                    Some(v) => v,
                    None => value.clone(),
                }
            } else {
                value.clone()
            };
            if contains_char(&chars_of(theme.as_str()), '\0') {
                return Err(StateMachineActionError::ParsingError);
            }
            Ok(ActionEffect::SetTheme { theme_id: theme })
        },
        Action::SetFrame { value } => match number(value, inputs, elapsed_time) {
            Some(v) => Ok(ActionEffect::SetFrame { frame: v }),
            None => Err(StateMachineActionError::ExecuteError),
        },
        Action::SetProgress { value } => Ok(
            match number(value, inputs, elapsed_time) {
                Some(v) => ActionEffect::SetProgress { percentage: v },
                None => ActionEffect::Nothing,
            },
        ),
        Action::FireCustomEvent { value } => Ok(ActionEffect::FireCustomEvent { value: value.clone() }),
        Action::OpenUrl { url, target } => {
            let text = chars_of(url.as_str());
            let resolved = if text.len() > 0 && text[0] == '$' {
                match read_string(inputs, strip_reference(url.as_str()).as_str()) {
                    Some(v) => v,
                    None => url.clone(),
                }
            } else {
                url.clone()
            };
            if !whitelist.is_allowed(resolved.as_str()) {
                return Err(StateMachineActionError::ExecuteError);
            }
            if requires_user_interaction {
                let interacted = match last_pointer_event {
                    Some(Event::PointerDown { .. }) => true,
                    Some(Event::Click { .. }) => true,
                    _ => false,
                };
                if !interacted {
                    return Err(StateMachineActionError::ExecuteError);
                }
            }
            Ok(ActionEffect::OpenUrl { command: NativeOpenUrl::open_url_command(resolved.as_str(), target.as_str()) })
        },
    }
}

/// A `Clamp` action with number bounds (not NaN) on a declared numeric
/// input: a value below the lower bound, or a NaN, becomes the lower bound;
/// one above the upper bound becomes the upper bound; a value between them
/// is left alone; inverted bounds change nothing.
pub proof fn law_clamp(
    name: DotString,
    lo: u32,
    hi: u32,
    inputs: InputsView,
    elapsed_time: u32,
    whitelist: Set<EntryView>,
    requires_user_interaction: bool,
    last_pointer_event: Option<Event>,
)
    requires
        inputs.numeric.contains_key(name@),
        name@ != elapsed_time_key(),
        !is_nan_bits(lo),
        !is_nan_bits(hi),
    ensures
        ({
            let cur = inputs.numeric[name@].0;
            let effect = action_effect(
                Action::Clamp { input_name: name, min: Some(StringNumber::F32(lo)), max: Some(StringNumber::F32(hi)) },
                inputs,
                elapsed_time,
                whitelist,
                requires_user_interaction,
                last_pointer_event,
            );
            &&& number_line(lo) > number_line(hi) ==> effect == Ok::<EffectView, StateMachineActionError>(EffectView::Nothing)
            &&& number_line(lo) <= number_line(hi) && is_nan_bits(cur) ==> effect == Ok::<EffectView, StateMachineActionError>(
                EffectView::SetNumeric { input_name: name@, value: lo },
            )
            &&& number_line(lo) <= number_line(hi) && !is_nan_bits(cur) && number_line(cur) < number_line(lo) ==> effect
                == Ok::<EffectView, StateMachineActionError>(EffectView::SetNumeric { input_name: name@, value: lo })
            &&& number_line(lo) <= number_line(hi) && !is_nan_bits(cur) && number_line(cur) > number_line(hi) ==> effect
                == Ok::<EffectView, StateMachineActionError>(EffectView::SetNumeric { input_name: name@, value: hi })
            &&& number_line(lo) <= number_line(hi) && !is_nan_bits(cur) && number_line(lo) <= number_line(cur)
                <= number_line(hi) ==> effect == Ok::<EffectView, StateMachineActionError>(EffectView::Nothing)
        }),
{
}

/// A `SetNumeric` action with a literal number on a declared numeric input
/// asks to set that input to exactly that number; `Toggle` on a declared
/// boolean asks for the opposite of its current value.
pub proof fn law_set_numeric_and_toggle(
    name: DotString,
    value: u32,
    inputs: InputsView,
    elapsed_time: u32,
    whitelist: Set<EntryView>,
    requires_user_interaction: bool,
    last_pointer_event: Option<Event>,
)
    ensures
        inputs.numeric.contains_key(name@) ==> action_effect(
            Action::SetNumeric { input_name: name, value: StringNumber::F32(value) },
            inputs,
            elapsed_time,
            whitelist,
            requires_user_interaction,
            last_pointer_event,
        ) == Ok::<EffectView, StateMachineActionError>(EffectView::SetNumeric { input_name: name@, value }),
        inputs.boolean.contains_key(name@) ==> action_effect(
            Action::Toggle { input_name: name },
            inputs,
            elapsed_time,
            whitelist,
            requires_user_interaction,
            last_pointer_event,
        ) == Ok::<EffectView, StateMachineActionError>(
            EffectView::SetBoolean { input_name: name@, value: !inputs.boolean[name@].0 },
        ),
{
}

} // verus!
