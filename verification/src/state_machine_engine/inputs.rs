//! Inputs of the state machine engine. Each declared input keeps its current
//! value and the value it was declared with, so that it can be reset.
//! Numeric values are IEEE-754 bit patterns of `f32` values.
use vstd::prelude::*;

use crate::state_machine::inputs::{assigned, declared, restored, InputTable, InputsView};

verus! {

/// A declared input: its name and initial value. A numeric value is the
/// IEEE-754 bit pattern of its `f32`.
#[derive(Debug, Clone)]
pub enum Input {
    Numeric { name: String, value: u32 },
    String { name: String, value: String },
    Boolean { name: String, value: bool },
    Event { name: String },
}

/// The value of an input. A numeric value is the IEEE-754 bit pattern of its
/// `f32`.
#[derive(Debug, Clone)]
pub enum InputValue {
    Numeric(u32),
    Boolean(bool),
    String(String),
    Event(String),
}

/// The inputs of a running state machine.
pub struct InputManager {
    numeric: InputTable<u32>,
    boolean: InputTable<bool>,
    string: InputTable<String>,
    event: InputTable<()>,
}

impl View for InputManager {
    type V = InputsView;

    closed spec fn view(&self) -> InputsView {
        InputsView {
            numeric: self.numeric@,
            boolean: self.boolean@,
            string: self.string@,
            event: self.event@.dom(),
        }
    }
}

impl Default for InputManager {
    fn default() -> (m: Self)
        ensures
            m@.numeric == Map::<Seq<char>, (u32, u32)>::empty(),
            m@.boolean == Map::<Seq<char>, (bool, bool)>::empty(),
            m@.string == Map::<Seq<char>, (Seq<char>, Seq<char>)>::empty(),
            m@.event == Set::<Seq<char>>::empty(),
    {
        Self::new()
    }
}

impl InputManager {
    /// No input declared.
    pub fn new() -> (m: Self)
        ensures
            m@.numeric == Map::<Seq<char>, (u32, u32)>::empty(),
            m@.boolean == Map::<Seq<char>, (bool, bool)>::empty(),
            m@.string == Map::<Seq<char>, (Seq<char>, Seq<char>)>::empty(),
            m@.event == Set::<Seq<char>>::empty(),
    {
        let m = InputManager {
            numeric: InputTable::new(),
            boolean: InputTable::new(),
            string: InputTable::new(),
            event: InputTable::new(),
        };
        assert(m@.event =~= Set::<Seq<char>>::empty());
        m
    }

    /// Number of declared inputs, all kinds together.
    pub fn len(&self) -> (n: usize)
        requires
            self@.numeric.len() + self@.boolean.len() + self@.string.len() + self@.event.len()
                <= usize::MAX,
        ensures
            n == self@.numeric.len() + self@.boolean.len() + self@.string.len()
                + self@.event.len(),
    {
        self.numeric.len() + self.boolean.len() + self.string.len() + self.event.len()
    }

    /// Whether no input is declared.
    pub fn is_empty(&self) -> (b: bool)
        ensures
            b == (self@.numeric.len() == 0 && self@.boolean.len() == 0 && self@.string.len() == 0
                && self@.event.len() == 0),
    {
        self.numeric.is_empty() && self.boolean.is_empty() && self.string.is_empty()
            && self.event.is_empty()
    }

    /// Declare numeric `key` with `value`, or redeclare it (its current and
    /// declared value both become `value`).
    pub fn set_initial_numeric(&mut self, key: &str, value: u32)
        ensures
            final(self)@ == (InputsView { numeric: declared(old(self)@.numeric, key@, value), ..old(self)@ }),
    {
        self.numeric.insert(key, value, value);
    }

    /// Declare string `key` with `value`, or redeclare it.
    pub fn set_initial_string(&mut self, key: &str, value: &str)
        ensures
            final(self)@ == (InputsView { string: declared(old(self)@.string, key@, value@), ..old(self)@ }),
    {
        self.string.insert(key, value.to_owned(), value.to_owned());
    }

    /// Declare boolean `key` with `value`, or redeclare it.
    pub fn set_initial_boolean(&mut self, key: &str, value: bool)
        ensures
            final(self)@ == (InputsView { boolean: declared(old(self)@.boolean, key@, value), ..old(self)@ }),
    {
        self.boolean.insert(key, value, value);
    }

    /// Declare event `key`.
    pub fn set_initial_event(&mut self, key: &str)
        ensures
            final(self)@ == (InputsView { event: old(self)@.event.insert(key@), ..old(self)@ }),
    {
        self.event.insert(key, (), ());
        assert(self@.event =~= old(self)@.event.insert(key@));
    }

    /// Set numeric `key` to `value`; its former value comes back. An
    /// undeclared `key` changes nothing and gives `None`.
    pub fn set_numeric(&mut self, key: &str, value: u32) -> (r: Option<u32>)
        ensures
            r == (if old(self)@.numeric.contains_key(key@) {
                Some(old(self)@.numeric[key@].0)
            } else {
                None
            }),
            final(self)@ == (InputsView { numeric: assigned(old(self)@.numeric, key@, value), ..old(self)@ }),
    {
        self.numeric.set_current(key, value)
    }

    /// Set boolean `key` to `value`; its former value comes back. An
    /// undeclared `key` changes nothing and gives `None`.
    pub fn set_boolean(&mut self, key: &str, value: bool) -> (r: Option<bool>)
        ensures
            r == (if old(self)@.boolean.contains_key(key@) {
                Some(old(self)@.boolean[key@].0)
            } else {
                None
            }),
            final(self)@ == (InputsView { boolean: assigned(old(self)@.boolean, key@, value), ..old(self)@ }),
    {
        self.boolean.set_current(key, value)
    }

    /// Set string `key` to `value`; its former value comes back. An
    /// undeclared `key` changes nothing and gives `None`.
    pub fn set_string(&mut self, key: &str, value: &str) -> (r: Option<String>)
        ensures
            r is Some == old(self)@.string.contains_key(key@),
            r matches Some(o) ==> o@ == old(self)@.string[key@].0,
            final(self)@ == (InputsView { string: assigned(old(self)@.string, key@, value@), ..old(self)@ }),
    {
        self.string.set_current(key, value.to_owned())
    }

    /// Current value of numeric `key`.
    pub fn get_numeric(&self, key: &str) -> (r: Option<u32>)
        ensures
            r == (if self@.numeric.contains_key(key@) {
                Some(self@.numeric[key@].0)
            } else {
                None
            }),
    {
        match self.numeric.get(key) {
            Some(v) => Some(*v),
            None => None,
        }
    }

    /// Current value of boolean `key`.
    pub fn get_boolean(&self, key: &str) -> (r: Option<bool>)
        ensures
            r == (if self@.boolean.contains_key(key@) {
                Some(self@.boolean[key@].0)
            } else {
                None
            }),
    {
        match self.boolean.get(key) {
            Some(v) => Some(*v),
            None => None,
        }
    }

    /// Current value of string `key`.
    pub fn get_string(&self, key: &str) -> (r: Option<&str>)
        ensures
            r is Some == self@.string.contains_key(key@),
            r matches Some(v) ==> v@ == self@.string[key@].0,
    {
        match self.string.get(key) {
            Some(v) => Some(v.as_str()),
            None => None,
        }
    }

    /// The name of event `key`, when it is declared.
    pub fn get_event(&self, key: &str) -> (r: Option<&str>)
        ensures
            r is Some == self@.event.contains(key@),
            r matches Some(v) ==> v@ == key@,
    {
        self.event.get_key(key)
    }

    /// Put `key` back to its declared value. The numeric inputs are looked at
    /// first, then the boolean, then the string ones; the (former, declared)
    /// values come back, or `None` when no input of those kinds has that name.
    pub fn reset(&mut self, key: &str) -> (r: Option<(InputValue, InputValue)>)
        ensures
            old(self)@.numeric.contains_key(key@) ==> r == Some(
                (
                    InputValue::Numeric(old(self)@.numeric[key@].0),
                    InputValue::Numeric(old(self)@.numeric[key@].1),
                ),
            ) && final(self)@ == (InputsView { numeric: restored(old(self)@.numeric, key@), ..old(self)@ }),
            !old(self)@.numeric.contains_key(key@) && old(self)@.boolean.contains_key(key@) ==> r
                == Some(
                (
                    InputValue::Boolean(old(self)@.boolean[key@].0),
                    InputValue::Boolean(old(self)@.boolean[key@].1),
                ),
            ) && final(self)@ == (InputsView { boolean: restored(old(self)@.boolean, key@), ..old(self)@ }),
            !old(self)@.numeric.contains_key(key@) && !old(self)@.boolean.contains_key(key@)
                && old(self)@.string.contains_key(key@) ==> (match r {
                Some((InputValue::String(former), InputValue::String(declared_value))) => former@
                    == old(self)@.string[key@].0 && declared_value@ == old(self)@.string[key@].1,
                _ => false,
            }) && final(self)@ == (InputsView { string: restored(old(self)@.string, key@), ..old(self)@ }),
            !old(self)@.numeric.contains_key(key@) && !old(self)@.boolean.contains_key(key@)
                && !old(self)@.string.contains_key(key@) ==> r is None && final(self)@ == old(self)@,
    {
        if let Some(d) = self.numeric.get_default(key) {
            let d = *d;
            return match self.numeric.set_current(key, d) {
                Some(former) => Some((InputValue::Numeric(former), InputValue::Numeric(d))),
                None => None,
            };
        }
        if let Some(d) = self.boolean.get_default(key) {
            let d = *d;
            return match self.boolean.set_current(key, d) {
                Some(former) => Some((InputValue::Boolean(former), InputValue::Boolean(d))),
                None => None,
            };
        }
        if let Some(d) = self.string.get_default(key) {
            let d = d.clone();
            let returned = d.clone();
            return match self.string.set_current(key, d) {
                Some(former) => Some((InputValue::String(former), InputValue::String(returned))),
                None => None,
            };
        }
        None
    }
}

} // verus!
