//! What running an action asks of the engine and the player, decided from
//! the inputs, the pending event and the `open_url` policy. The engine
//! performs the effect: it writes the input (and tells its observers), adds
//! or subtracts `f32` values, drives the player, or hands a command to the
//! host.
use vstd::prelude::*;

use crate::state_machine_engine::actions::utils::{open_url_command_text, NativeOpenUrl};
use crate::state_machine::actions::whitelist::EntryView;
use crate::state_machine_engine::actions::whitelist::{allows, Whitelist};
use crate::state_machine_engine::actions::{
    all_guards_satisfied, action_guards, guard_passes, guards_pass, Action, StateMachineActionError,
};
use crate::state_machine::inputs::InputsView;
use crate::state_machine_engine::events::Event;
use crate::state_machine_engine::inputs::InputManager;
use crate::state_machine_engine::state_machine::{StringBool, StringNumber};
use crate::state_machine_engine::transitions::guard::Guard;
use crate::state_machine_engine::states::elapsed_time_name;
use crate::text::{chars_of, contains_char, same_text, string_of, trim_start_char, trim_start_char_in};

verus! {

/// The bit pattern of the `f32` value `1.0`, the default step of an
/// increment or a decrement.
pub const ONE_F32_BITS: u32 = 0x3f80_0000;

/// What an action asks for. Numbers are IEEE-754 bit patterns of `f32`
/// values.
#[derive(Debug, Clone, PartialEq)]
pub enum ActionEffect {
    /// Nothing: a guard did not pass, or the input to change is not declared.
    Nothing,
    /// Set the numeric input to `current + amount`.
    AddNumeric { input_name: String, current: u32, amount: u32 },
    /// Set the numeric input to `current - amount`.
    SubtractNumeric { input_name: String, current: u32, amount: u32 },
    SetBoolean { input_name: String, value: bool },
    SetNumeric { input_name: String, value: u32 },
    SetString { input_name: String, value: String },
    /// Fire the event input (the engine ignores an undeclared one).
    Fire { input_name: String },
    Reset { input_name: String },
    SetTheme { theme_id: String },
    /// Show this frame, clamped to the animation's frames.
    SetFrame { frame: u32 },
    /// Show the frame at this percentage of the animation, clamped to 0–100.
    SetProgress { percentage: u32 },
    FireCustomEvent { value: String },
    /// Hand this command to the host, which opens the link.
    OpenUrl { command: String },
}

/// An effect as a mathematical value.
pub ghost enum EffectView {
    Nothing,
    AddNumeric { input_name: Seq<char>, current: u32, amount: u32 },
    SubtractNumeric { input_name: Seq<char>, current: u32, amount: u32 },
    SetBoolean { input_name: Seq<char>, value: bool },
    SetNumeric { input_name: Seq<char>, value: u32 },
    SetString { input_name: Seq<char>, value: Seq<char> },
    Fire { input_name: Seq<char> },
    Reset { input_name: Seq<char> },
    SetTheme { theme_id: Seq<char> },
    SetFrame { frame: u32 },
    SetProgress { percentage: u32 },
    FireCustomEvent { value: Seq<char> },
    OpenUrl { command: Seq<char> },
}

impl View for ActionEffect {
    type V = EffectView;

    open spec fn view(&self) -> EffectView {
        match self {
            ActionEffect::Nothing => EffectView::Nothing,
            ActionEffect::AddNumeric { input_name, current, amount } => EffectView::AddNumeric {
                input_name: input_name@,
                current: *current,
                amount: *amount,
            },
            ActionEffect::SubtractNumeric { input_name, current, amount } => EffectView::SubtractNumeric {
                input_name: input_name@,
                current: *current,
                amount: *amount,
            },
            ActionEffect::SetBoolean { input_name, value } => EffectView::SetBoolean {
                input_name: input_name@,
                value: *value,
            },
            ActionEffect::SetNumeric { input_name, value } => EffectView::SetNumeric {
                input_name: input_name@,
                value: *value,
            },
            ActionEffect::SetString { input_name, value } => EffectView::SetString {
                input_name: input_name@,
                value: value@,
            },
            ActionEffect::Fire { input_name } => EffectView::Fire { input_name: input_name@ },
            ActionEffect::Reset { input_name } => EffectView::Reset { input_name: input_name@ },
            ActionEffect::SetTheme { theme_id } => EffectView::SetTheme { theme_id: theme_id@ },
            ActionEffect::SetFrame { frame } => EffectView::SetFrame { frame: *frame },
            ActionEffect::SetProgress { percentage } => EffectView::SetProgress { percentage: *percentage },
            ActionEffect::FireCustomEvent { value } => EffectView::FireCustomEvent { value: value@ },
            ActionEffect::OpenUrl { command } => EffectView::OpenUrl { command: command@ },
        }
    }
}

/// What an action reads for numeric input `key`: the time spent in the
/// current state for the built-in elapsed-time input, else the input's
/// current value, if it is declared.
pub open spec fn numeric_read(inputs: InputsView, elapsed_time: u32, key: Seq<char>) -> Option<u32> {
    if key == elapsed_time_name() {
        Some(elapsed_time)
    } else if inputs.numeric.contains_key(key) {
        Some(inputs.numeric[key].0)
    } else {
        None
    }
}

/// The current value of boolean input `key`, if it is declared.
pub open spec fn boolean_read(inputs: InputsView, key: Seq<char>) -> Option<bool> {
    if inputs.boolean.contains_key(key) {
        Some(inputs.boolean[key].0)
    } else {
        None
    }
}

/// The current value of string input `key`, if it is declared.
pub open spec fn string_read(inputs: InputsView, key: Seq<char>) -> Option<Seq<char>> {
    if inputs.string.contains_key(key) {
        Some(inputs.string[key].0)
    } else {
        None
    }
}

/// The step of an increment or a decrement: the literal, the numeric input a
/// `$`-reference names, or `1.0` when there is no value or the reference
/// names no input.
pub open spec fn step_of(value: Option<StringNumber>, inputs: InputsView, elapsed_time: u32) -> u32 {
    match value {
        None => ONE_F32_BITS,
        Some(StringNumber::F32(v)) => v,
        Some(StringNumber::String(s)) => match numeric_read(inputs, elapsed_time, trim_start_char(s@, '$')) {
            Some(v) => v,
            None => ONE_F32_BITS,
        },
    }
}

/// What the URL of an `OpenUrl` action resolves to: the string input a
/// `$`-reference names, or the text itself.
pub open spec fn resolved_url(url: Seq<char>, inputs: InputsView) -> Seq<char> {
    if url.len() > 0 && url[0] == '$' {
        match string_read(inputs, trim_start_char(url, '$')) {
            Some(v) => v,
            None => url,
        }
    } else {
        url
    }
}

/// What a `SetTheme` value resolves to: the string input named after one
/// leading `$`, or the text itself.
pub open spec fn resolved_theme(value: Seq<char>, inputs: InputsView) -> Seq<char> {
    if value.len() > 0 && value[0] == '$' {
        match string_read(inputs, value.drop_first()) {
            Some(v) => v,
            None => value,
        }
    } else {
        value
    }
}

/// What an action asks for once its guards have passed.
pub open spec fn guarded_effect(
    action: Action,
    inputs: InputsView,
    elapsed_time: u32,
    whitelist: Set<EntryView>,
    requires_user_interaction: bool,
    last_pointer_event: Option<Event>,
) -> Result<EffectView, StateMachineActionError> {
    match action {
        Action::Increment { input_name, value, .. } => Ok(
            match numeric_read(inputs, elapsed_time, input_name@) {
                Some(current) => EffectView::AddNumeric {
                    input_name: input_name@,
                    current,
                    amount: step_of(value, inputs, elapsed_time),
                },
                None => EffectView::Nothing,
            },
        ),
        Action::Decrement { input_name, value, .. } => Ok(
            match numeric_read(inputs, elapsed_time, input_name@) {
                Some(current) => EffectView::SubtractNumeric {
                    input_name: input_name@,
                    current,
                    amount: step_of(value, inputs, elapsed_time),
                },
                None => EffectView::Nothing,
            },
        ),
        Action::Toggle { input_name, .. } => Ok(
            match boolean_read(inputs, input_name@) {
                Some(b) => EffectView::SetBoolean { input_name: input_name@, value: !b },
                None => EffectView::Nothing,
            },
        ),
        Action::SetBoolean { input_name, value, .. } => Ok(
            if boolean_read(inputs, input_name@) is None {
                EffectView::Nothing
            } else {
                match value {
                    StringBool::Bool(b) => EffectView::SetBoolean { input_name: input_name@, value: b },
                    StringBool::String(s) => match boolean_read(inputs, trim_start_char(s@, '$')) {
                        Some(b) => EffectView::SetBoolean { input_name: input_name@, value: b },
                        None => EffectView::Nothing,
                    },
                }
            },
        ),
        Action::SetNumeric { input_name, value, .. } => Ok(
            if numeric_read(inputs, elapsed_time, input_name@) is None {
                EffectView::Nothing
            } else {
                match value {
                    StringNumber::F32(v) => EffectView::SetNumeric { input_name: input_name@, value: v },
                    StringNumber::String(s) => match numeric_read(inputs, elapsed_time, trim_start_char(s@, '$')) {
                        Some(v) => EffectView::SetNumeric { input_name: input_name@, value: v },
                        None => EffectView::Nothing,
                    },
                }
            },
        ),
        Action::SetString { input_name, value, .. } => Ok(
            if string_read(inputs, input_name@) is None {
                EffectView::Nothing
            } else {
                match string_read(inputs, trim_start_char(value@, '$')) {
                    Some(v) => EffectView::SetString { input_name: input_name@, value: v },
                    None => EffectView::SetString { input_name: input_name@, value: value@ },
                }
            },
        ),
        Action::Fire { input_name, .. } => Ok(EffectView::Fire { input_name: input_name@ }),
        Action::Reset { input_name, .. } => Ok(EffectView::Reset { input_name: input_name@ }),
        Action::SetTheme { value, .. } => {
            let theme = resolved_theme(value@, inputs);
            if theme.contains('\0') {
                Err(StateMachineActionError::ParsingError)
            } else {
                Ok(EffectView::SetTheme { theme_id: theme })
            }
        },
        Action::SetFrame { value, .. } => match value {
            StringNumber::F32(v) => Ok(EffectView::SetFrame { frame: v }),
            StringNumber::String(s) => match numeric_read(inputs, elapsed_time, trim_start_char(s@, '$')) {
                Some(v) => Ok(EffectView::SetFrame { frame: v }),
                None => Err(StateMachineActionError::ExecuteError),
            },
        },
        Action::SetProgress { value, .. } => Ok(
            match value {
                StringNumber::F32(v) => EffectView::SetProgress { percentage: v },
                StringNumber::String(s) => match numeric_read(inputs, elapsed_time, trim_start_char(s@, '$')) {
                    Some(v) => EffectView::SetProgress { percentage: v },
                    None => EffectView::Nothing,
                },
            },
        ),
        Action::FireCustomEvent { value, .. } => Ok(EffectView::FireCustomEvent { value: value@ }),
        Action::OpenUrl { url, target, .. } => {
            let resolved = resolved_url(url@, inputs);
            if allows(whitelist, resolved) != Ok::<bool, Seq<char>>(true) {
                Err(StateMachineActionError::ExecuteError)
            } else if requires_user_interaction && !(last_pointer_event matches Some(e) && (e is PointerDown
                || e is Click)) {
                Err(StateMachineActionError::ExecuteError)
            } else {
                Ok(EffectView::OpenUrl { command: open_url_command_text(resolved, target@) })
            }
        },
    }
}

/// A `SetNumeric` action with a literal number on a declared numeric input
/// asks to set that input to exactly that number; on an undeclared input it
/// asks for nothing.
pub proof fn law_set_numeric_literal(
    name: String,
    value: u32,
    guards: Option<Vec<Guard>>,
    inputs: InputsView,
    elapsed_time: u32,
    whitelist: Set<EntryView>,
    requires_user_interaction: bool,
    last_pointer_event: Option<Event>,
)
    ensures
        inputs.numeric.contains_key(name@) ==> guarded_effect(
            Action::SetNumeric { input_name: name, value: StringNumber::F32(value), guards },
            inputs,
            elapsed_time,
            whitelist,
            requires_user_interaction,
            last_pointer_event,
        ) == Ok::<EffectView, StateMachineActionError>(EffectView::SetNumeric { input_name: name@, value }),
        !inputs.numeric.contains_key(name@) && name@ != elapsed_time_name() ==> guarded_effect(
            Action::SetNumeric { input_name: name, value: StringNumber::F32(value), guards },
            inputs,
            elapsed_time,
            whitelist,
            requires_user_interaction,
            last_pointer_event,
        ) == Ok::<EffectView, StateMachineActionError>(EffectView::Nothing),
{
}

/// A `SetNumeric` action whose value is `$other`, on declared numeric
/// inputs, asks to set its input to the current value of `other`.
pub proof fn law_set_numeric_reference(
    name: String,
    reference: String,
    guards: Option<Vec<Guard>>,
    inputs: InputsView,
    elapsed_time: u32,
    whitelist: Set<EntryView>,
    requires_user_interaction: bool,
    last_pointer_event: Option<Event>,
)
    requires
        inputs.numeric.contains_key(name@),
        inputs.numeric.contains_key(trim_start_char(reference@, '$')),
        trim_start_char(reference@, '$') != elapsed_time_name(),
    ensures
        guarded_effect(
            Action::SetNumeric { input_name: name, value: StringNumber::String(reference), guards },
            inputs,
            elapsed_time,
            whitelist,
            requires_user_interaction,
            last_pointer_event,
        ) == Ok::<EffectView, StateMachineActionError>(
            EffectView::SetNumeric { input_name: name@, value: inputs.numeric[trim_start_char(reference@, '$')].0 },
        ),
{
}

/// On declared inputs: `Toggle` asks to set the boolean to the opposite of
/// its current value; `SetBoolean` with a literal asks for that literal;
/// `Increment` and `Decrement` ask to add or subtract their literal step (or
/// `1.0` when they have none) to the current value.
pub proof fn law_input_actions(
    name: String,
    flag: bool,
    step: Option<u32>,
    guards: Option<Vec<Guard>>,
    inputs: InputsView,
    elapsed_time: u32,
    whitelist: Set<EntryView>,
    requires_user_interaction: bool,
    last_pointer_event: Option<Event>,
)
    ensures
        inputs.boolean.contains_key(name@) ==> guarded_effect(
            Action::Toggle { input_name: name, guards },
            inputs,
            elapsed_time,
            whitelist,
            requires_user_interaction,
            last_pointer_event,
        ) == Ok::<EffectView, StateMachineActionError>(
            EffectView::SetBoolean { input_name: name@, value: !inputs.boolean[name@].0 },
        ),
        inputs.boolean.contains_key(name@) ==> guarded_effect(
            Action::SetBoolean { input_name: name, value: StringBool::Bool(flag), guards },
            inputs,
            elapsed_time,
            whitelist,
            requires_user_interaction,
            last_pointer_event,
        ) == Ok::<EffectView, StateMachineActionError>(EffectView::SetBoolean { input_name: name@, value: flag }),
        inputs.numeric.contains_key(name@) && name@ != elapsed_time_name() ==> guarded_effect(
            Action::Increment {
                input_name: name,
                value: match step {
                    Some(v) => Some(StringNumber::F32(v)),
                    None => None,
                },
                guards,
            },
            inputs,
            elapsed_time,
            whitelist,
            requires_user_interaction,
            last_pointer_event,
        ) == Ok::<EffectView, StateMachineActionError>(
            EffectView::AddNumeric {
                input_name: name@,
                current: inputs.numeric[name@].0,
                amount: match step {
                    Some(v) => v,
                    None => 0x3f80_0000u32,
                },
            },
        ),
        inputs.numeric.contains_key(name@) && name@ != elapsed_time_name() ==> guarded_effect(
            Action::Decrement {
                input_name: name,
                value: match step {
                    Some(v) => Some(StringNumber::F32(v)),
                    None => None,
                },
                guards,
            },
            inputs,
            elapsed_time,
            whitelist,
            requires_user_interaction,
            last_pointer_event,
        ) == Ok::<EffectView, StateMachineActionError>(
            EffectView::SubtractNumeric {
                input_name: name@,
                current: inputs.numeric[name@].0,
                amount: match step {
                    Some(v) => v,
                    None => 0x3f80_0000u32,
                },
            },
        ),
        guarded_effect(
            Action::Fire { input_name: name, guards },
            inputs,
            elapsed_time,
            whitelist,
            requires_user_interaction,
            last_pointer_event,
        ) == Ok::<EffectView, StateMachineActionError>(EffectView::Fire { input_name: name@ }),
        guarded_effect(
            Action::Reset { input_name: name, guards },
            inputs,
            elapsed_time,
            whitelist,
            requires_user_interaction,
            last_pointer_event,
        ) == Ok::<EffectView, StateMachineActionError>(EffectView::Reset { input_name: name@ }),
{
}

/// A `SetFrame` or `SetProgress` action with a literal number asks for
/// exactly that frame or percentage.
pub proof fn law_player_actions_literal(
    value: u32,
    guards: Option<Vec<Guard>>,
    inputs: InputsView,
    elapsed_time: u32,
    whitelist: Set<EntryView>,
    requires_user_interaction: bool,
    last_pointer_event: Option<Event>,
)
    ensures
        guarded_effect(
            Action::SetFrame { value: StringNumber::F32(value), guards },
            inputs,
            elapsed_time,
            whitelist,
            requires_user_interaction,
            last_pointer_event,
        ) == Ok::<EffectView, StateMachineActionError>(EffectView::SetFrame { frame: value }),
        guarded_effect(
            Action::SetProgress { value: StringNumber::F32(value), guards },
            inputs,
            elapsed_time,
            whitelist,
            requires_user_interaction,
            last_pointer_event,
        ) == Ok::<EffectView, StateMachineActionError>(EffectView::SetProgress { percentage: value }),
{
}

/// On a declared string input, `SetString` asks to set it to the current
/// value of the string input its value names (leading `$`s dropped), or to
/// the value's own text when no such input exists; on an undeclared input it
/// asks for nothing.
pub proof fn law_set_string(
    name: String,
    value: String,
    guards: Option<Vec<Guard>>,
    inputs: InputsView,
    elapsed_time: u32,
    whitelist: Set<EntryView>,
    requires_user_interaction: bool,
    last_pointer_event: Option<Event>,
)
    ensures
        guarded_effect(
            Action::SetString { input_name: name, value, guards },
            inputs,
            elapsed_time,
            whitelist,
            requires_user_interaction,
            last_pointer_event,
        ) == Ok::<EffectView, StateMachineActionError>(
            if !inputs.string.contains_key(name@) {
                EffectView::Nothing
            } else if inputs.string.contains_key(trim_start_char(value@, '$')) {
                EffectView::SetString { input_name: name@, value: inputs.string[trim_start_char(value@, '$')].0 }
            } else {
                EffectView::SetString { input_name: name@, value: value@ }
            },
        ),
{
}

/// An `OpenUrl` action whose (resolved) URL the whitelist does not allow
/// fails; one it allows, with no user interaction required, asks the host
/// to open it with the `OpenUrl: <url>` command (and its target, if any).
pub proof fn law_open_url(
    url: String,
    target: String,
    guards: Option<Vec<Guard>>,
    inputs: InputsView,
    elapsed_time: u32,
    whitelist: Set<EntryView>,
    last_pointer_event: Option<Event>,
)
    requires
        !(url@.len() > 0 && url@[0] == '$'),
    ensures
        allows(whitelist, url@) != Ok::<bool, Seq<char>>(true) ==> guarded_effect(
            Action::OpenUrl { url, target, guards },
            inputs,
            elapsed_time,
            whitelist,
            false,
            last_pointer_event,
        ) == Err::<EffectView, StateMachineActionError>(StateMachineActionError::ExecuteError),
        allows(whitelist, url@) == Ok::<bool, Seq<char>>(true) ==> guarded_effect(
            Action::OpenUrl { url, target, guards },
            inputs,
            elapsed_time,
            whitelist,
            false,
            last_pointer_event,
        ) == Ok::<EffectView, StateMachineActionError>(
            EffectView::OpenUrl {
                command: if target@.len() == 0 {
                    "OpenUrl: "@ + url@
                } else {
                    "OpenUrl: "@ + url@ + " | Target: "@ + target@
                },
            },
        ),
{
}

/// Guards decide whether an action runs at all: an action with a guard that
/// does not pass asks for nothing; one without guards, or whose guards all
/// pass, asks for what its kind and the inputs say.
pub proof fn law_guards_gate_actions(
    action: Action,
    inputs: InputsView,
    elapsed_time: u32,
    event: Option<Seq<char>>,
    whitelist: Set<EntryView>,
    requires_user_interaction: bool,
    last_pointer_event: Option<Event>,
    k: int,
)
    ensures
        (action_guards(action) matches Some(gs) && 0 <= k < gs@.len() && !guard_passes(gs@[k], inputs, event))
            ==> action_effect(
            action,
            inputs,
            elapsed_time,
            event,
            whitelist,
            requires_user_interaction,
            last_pointer_event,
        ) == Ok::<EffectView, StateMachineActionError>(EffectView::Nothing),
        action_guards(action) is None ==> action_effect(
            action,
            inputs,
            elapsed_time,
            event,
            whitelist,
            requires_user_interaction,
            last_pointer_event,
        ) == guarded_effect(action, inputs, elapsed_time, whitelist, requires_user_interaction, last_pointer_event),
{
}

/// What an action asks for: nothing when one of its guards does not pass
/// (see `guards_pass`), else its guarded effect.
pub open spec fn action_effect(
    action: Action,
    inputs: InputsView,
    elapsed_time: u32,
    event: Option<Seq<char>>,
    whitelist: Set<EntryView>,
    requires_user_interaction: bool,
    last_pointer_event: Option<Event>,
) -> Result<EffectView, StateMachineActionError> {
    if !guards_pass(action_guards(action), inputs, event) {
        Ok(EffectView::Nothing)
    } else {
        guarded_effect(action, inputs, elapsed_time, whitelist, requires_user_interaction, last_pointer_event)
    }
}

/// What an action reads for numeric input `key` (see `numeric_read`).
fn read_numeric(inputs: &InputManager, elapsed_time: u32, key: &str) -> (r: Option<u32>)
    ensures
        r == numeric_read(inputs@, elapsed_time, key@),
{
    if same_text(key, "@elapsedTime") {
        proof {
            reveal_strlit("@elapsedTime");
        }
        Some(elapsed_time)
    } else {
        proof {
            reveal_strlit("@elapsedTime");
        }
        inputs.get_numeric(key)
    }
}

/// `text` without its leading `$`s.
fn strip_dollars(text: &str) -> (r: String)
    ensures
        r@ == trim_start_char(text@, '$'),
{
    string_of(&trim_start_char_in(&chars_of(text), '$'))
}

/// The step of an increment or a decrement (see `step_of`).
fn step(value: &Option<StringNumber>, inputs: &InputManager, elapsed_time: u32) -> (r: u32)
    ensures
        r == step_of(*value, inputs@, elapsed_time),
{
    match value {
        None => ONE_F32_BITS,
        Some(StringNumber::F32(v)) => *v,
        Some(StringNumber::String(s)) => match read_numeric(inputs, elapsed_time, strip_dollars(s.as_str()).as_str()) {
            Some(v) => v,
            None => ONE_F32_BITS,
        },
    }
}

/// The current value of string input `key`, copied.
fn read_string(inputs: &InputManager, key: &str) -> (r: Option<String>)
    ensures
        match r {
            Some(v) => string_read(inputs@, key@) == Some(v@),
            None => string_read(inputs@, key@) is None,
        },
{
    match inputs.get_string(key) {
        Some(v) => Some(v.to_owned()),
        None => None,
    }
}

/// What an action asks for once its guards have passed (see
/// `guarded_effect`).
fn guarded_action_effect(
    action: &Action,
    inputs: &InputManager,
    elapsed_time: u32,
    whitelist: &Whitelist,
    requires_user_interaction: bool,
    last_pointer_event: Option<&Event>,
) -> (r: Result<ActionEffect, StateMachineActionError>)
    ensures
        match r {
            Ok(e) => guarded_effect(
                *action,
                inputs@,
                elapsed_time,
                whitelist@,
                requires_user_interaction,
                match last_pointer_event {
                    Some(e) => Some(*e),
                    None => None,
                },
            ) == Ok::<EffectView, StateMachineActionError>(e@),
            Err(x) => guarded_effect(
                *action,
                inputs@,
                elapsed_time,
                whitelist@,
                requires_user_interaction,
                match last_pointer_event {
                    Some(e) => Some(*e),
                    None => None,
                },
            ) == Err::<EffectView, StateMachineActionError>(x),
        },
{
    match action {
        Action::Increment { input_name, value, .. } => Ok(
            match read_numeric(inputs, elapsed_time, input_name.as_str()) {
                Some(current) => ActionEffect::AddNumeric {
                    input_name: input_name.clone(),
                    current,
                    amount: step(value, inputs, elapsed_time),
                },
                None => ActionEffect::Nothing,
            },
        ),
        Action::Decrement { input_name, value, .. } => Ok(
            match read_numeric(inputs, elapsed_time, input_name.as_str()) {
                Some(current) => ActionEffect::SubtractNumeric {
                    input_name: input_name.clone(),
                    current,
                    amount: step(value, inputs, elapsed_time),
                },
                None => ActionEffect::Nothing,
            },
        ),
        Action::Toggle { input_name, .. } => Ok(
            match inputs.get_boolean(input_name.as_str()) {
                Some(b) => ActionEffect::SetBoolean { input_name: input_name.clone(), value: !b },
                None => ActionEffect::Nothing,
            },
        ),
        Action::SetBoolean { input_name, value, .. } => {
            if inputs.get_boolean(input_name.as_str()).is_none() {
                return Ok(ActionEffect::Nothing);
            }
            Ok(
                match value {
                    StringBool::Bool(b) => ActionEffect::SetBoolean { input_name: input_name.clone(), value: *b },
                    StringBool::String(s) => match inputs.get_boolean(strip_dollars(s.as_str()).as_str()) {
                        Some(b) => ActionEffect::SetBoolean { input_name: input_name.clone(), value: b },
                        None => ActionEffect::Nothing,
                    },
                },
            )
        },
        Action::SetNumeric { input_name, value, .. } => {
            if read_numeric(inputs, elapsed_time, input_name.as_str()).is_none() {
                return Ok(ActionEffect::Nothing);
            }
            Ok(
                match value {
                    StringNumber::F32(v) => ActionEffect::SetNumeric { input_name: input_name.clone(), value: *v },
                    StringNumber::String(s) => match read_numeric(
                        inputs,
                        elapsed_time,
                        strip_dollars(s.as_str()).as_str(),
                    ) {
                        Some(v) => ActionEffect::SetNumeric { input_name: input_name.clone(), value: v },
                        None => ActionEffect::Nothing,
                    },
                },
            )
        },
        Action::SetString { input_name, value, .. } => {
            if inputs.get_string(input_name.as_str()).is_none() {
                return Ok(ActionEffect::Nothing);
            }
            Ok(
                match read_string(inputs, strip_dollars(value.as_str()).as_str()) {
                    Some(v) => ActionEffect::SetString { input_name: input_name.clone(), value: v },
                    None => ActionEffect::SetString { input_name: input_name.clone(), value: value.clone() },
                },
            )
        },
        Action::Fire { input_name, .. } => Ok(ActionEffect::Fire { input_name: input_name.clone() }),
        Action::Reset { input_name, .. } => Ok(ActionEffect::Reset { input_name: input_name.clone() }),
        Action::SetTheme { value, .. } => {
            let text = chars_of(value.as_str());
            let theme = if text.len() > 0 && text[0] == '$' {
                let key = string_of(&crate::text::slice_chars(&text, 1, text.len()));
                proof {
                    assert(text@.subrange(1, text@.len() as int) =~= value@.drop_first());
                }
                match read_string(inputs, key.as_str()) {
                    Some(v) => v,
                    None => value.clone(),
                }
            } else {
                value.clone()
            };
            if contains_char(&chars_of(theme.as_str()), '\0') {
                return Err(StateMachineActionError::ParsingError);
            }
            Ok(ActionEffect::SetTheme { theme_id: theme })
        },
        Action::SetFrame { value, .. } => match value {
            StringNumber::F32(v) => Ok(ActionEffect::SetFrame { frame: *v }),
            StringNumber::String(s) => match read_numeric(inputs, elapsed_time, strip_dollars(s.as_str()).as_str()) {
                Some(v) => Ok(ActionEffect::SetFrame { frame: v }),
                None => Err(StateMachineActionError::ExecuteError),
            },
        },
        Action::SetProgress { value, .. } => Ok(
            match value {
                StringNumber::F32(v) => ActionEffect::SetProgress { percentage: *v },
                StringNumber::String(s) => match read_numeric(
                    inputs,
                    elapsed_time,
                    strip_dollars(s.as_str()).as_str(),
                ) {
                    Some(v) => ActionEffect::SetProgress { percentage: v },
                    None => ActionEffect::Nothing,
                },
            },
        ),
        Action::FireCustomEvent { value, .. } => Ok(ActionEffect::FireCustomEvent { value: value.clone() }),
        Action::OpenUrl { url, target, .. } => {
            let text = chars_of(url.as_str());
            let resolved = if text.len() > 0 && text[0] == '$' {
                match read_string(inputs, strip_dollars(url.as_str()).as_str()) {
                    Some(v) => v,
                    None => url.clone(),
                }
            } else {
                url.clone()
            };
            match whitelist.is_allowed(resolved.as_str()) {
                Ok(true) => {},
                _ => return Err(StateMachineActionError::ExecuteError),
            }
            if requires_user_interaction {
                let interacted = match last_pointer_event {
                    Some(Event::PointerDown { .. }) => true,
                    Some(Event::Click { .. }) => true,
                    _ => false,
                };
                if !interacted {
                    return Err(StateMachineActionError::ExecuteError);
                }
            }
            Ok(ActionEffect::OpenUrl { command: NativeOpenUrl::open_url_command(resolved.as_str(), target.as_str()) })
        },
    }
}

/// What running `action` asks of the engine: nothing when one of its guards
/// does not pass, given the inputs and the pending event; else what the
/// action reads from the inputs decides (see `guarded_effect`). The built-in
/// elapsed-time input reads as `elapsed_time`; `OpenUrl` needs its URL
/// allowed by `whitelist`, and, when `requires_user_interaction` holds, the
/// most recent pointer event to be a press or a click.
pub fn resolve_action(
    action: &Action,
    inputs: &InputManager,
    elapsed_time: u32,
    event: Option<&str>,
    whitelist: &Whitelist,
    requires_user_interaction: bool,
    last_pointer_event: Option<&Event>,
) -> (r: Result<ActionEffect, StateMachineActionError>)
    ensures
        ({
            let expected = action_effect(
                *action,
                inputs@,
                elapsed_time,
                match event {
                    Some(e) => Some(e@),
                    None => None,
                },
                whitelist@,
                requires_user_interaction,
                match last_pointer_event {
                    Some(e) => Some(*e),
                    None => None,
                },
            );
            match r {
                Ok(e) => expected == Ok::<EffectView, StateMachineActionError>(e@),
                Err(x) => expected == Err::<EffectView, StateMachineActionError>(x),
            }
        }),
{
    let guards = match action {
        Action::OpenUrl { guards, .. } => guards,
        Action::Increment { guards, .. } => guards,
        Action::Decrement { guards, .. } => guards,
        Action::Toggle { guards, .. } => guards,
        Action::SetBoolean { guards, .. } => guards,
        Action::SetString { guards, .. } => guards,
        Action::SetNumeric { guards, .. } => guards,
        Action::Fire { guards, .. } => guards,
        Action::Reset { guards, .. } => guards,
        Action::SetTheme { guards, .. } => guards,
        Action::SetFrame { guards, .. } => guards,
        Action::SetProgress { guards, .. } => guards,
        Action::FireCustomEvent { guards, .. } => guards,
    };
    if !all_guards_satisfied(guards, inputs, event) {
        return Ok(ActionEffect::Nothing);
    }
    guarded_action_effect(action, inputs, elapsed_time, whitelist, requires_user_interaction, last_pointer_event)
}

} // verus!
