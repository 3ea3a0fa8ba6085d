//! Inputs of a state machine. Each declared input keeps its current value and
//! the value it was declared with, so that it can be reset.
//!
//! Numeric inputs hold the IEEE-754 bit pattern of their `f32` value: the
//! inputs only store, compare for identity and hand back numbers, which the
//! bit pattern does exactly.
use vstd::prelude::*;

use crate::state_machine::{starts_with_char, str_starts_with_char};

verus! {

/// One input: its name, its current value and its declared value.
pub struct InputEntry<V> {
    key: String,
    current: V,
    default: V,
}

/// Inputs of one kind, keyed by name. No name occurs twice.
pub struct InputTable<V> {
    entries: Vec<InputEntry<V>>,
}

/// Where `needle` occurs in a sequence without duplicates, `index_of` finds
/// exactly that position.
pub proof fn lemma_index_of_unique(s: Seq<Seq<char>>, j: int)
    requires
        s.no_duplicates(),
        0 <= j < s.len(),
    ensures
        s.contains(s[j]),
        s.index_of(s[j]) == j,
{
    assert(s.contains(s[j]));
}

impl<V> InputTable<V> {
    /// The names, in the order they were declared.
    pub closed spec fn keys(&self) -> Seq<Seq<char>> {
        self.entries@.map_values(|e: InputEntry<V>| e.key@)
    }

    /// No name occurs twice.
    #[verifier::type_invariant]
    closed spec fn unique_keys(&self) -> bool {
        self.keys().no_duplicates()
    }
}

impl<V: View> View for InputTable<V> {
    /// Each name mapped to its (current, declared) value.
    type V = Map<Seq<char>, (V::V, V::V)>;

    closed spec fn view(&self) -> Map<Seq<char>, (V::V, V::V)> {
        Map::new(
            |k: Seq<char>| self.keys().contains(k),
            |k: Seq<char>|
                {
                    let e = self.entries@[self.keys().index_of(k)];
                    (e.current@, e.default@)
                },
        )
    }
}

impl<V: View> InputTable<V> {
    /// The entry at `i` is what the view holds for its name.
    proof fn lemma_entry(&self, i: int)
        requires
            self.unique_keys(),
            0 <= i < self.entries@.len(),
        ensures
            self.keys()[i] == self.entries@[i].key@,
            self@.contains_key(self.entries@[i].key@),
            self@[self.entries@[i].key@] == (self.entries@[i].current@, self.entries@[i].default@),
    {
        lemma_index_of_unique(self.keys(), i);
    }

    /// The view's names are the keys.
    proof fn lemma_dom(&self)
        requires
            self.unique_keys(),
        ensures
            self@.dom() == self.keys().to_set(),
            self@.dom().finite(),
            self@.dom().len() == self.entries@.len(),
    {
        assert(self@.dom() =~= self.keys().to_set());
        self.keys().unique_seq_to_set();
    }

    /// An empty table.
    pub fn new() -> (t: Self)
        ensures
            t@ == Map::<Seq<char>, (V::V, V::V)>::empty(),
    {
        let t = InputTable { entries: Vec::new() };
        assert(t@ =~= Map::<Seq<char>, (V::V, V::V)>::empty());
        t
    }

    /// Number of names.
    pub fn len(&self) -> (n: usize)
        ensures
            n == self@.dom().len(),
            self@.dom().finite(),
    {
        proof {
            use_type_invariant(self);
            self.lemma_dom();
        }
        self.entries.len()
    }

    /// Whether no name is declared.
    pub fn is_empty(&self) -> (b: bool)
        ensures
            b == (self@.dom().len() == 0),
            self@.dom().finite(),
    {
        self.len() == 0
    }

    /// Where `key` is stored, if it is declared.
    fn find(&self, key: &str) -> (r: Option<usize>)
        ensures
            match r {
                Some(i) => i < self.entries@.len() && self.entries@[i as int].key@ == key@
                    && self@.contains_key(key@),
                None => !self@.contains_key(key@),
            },
    {
        proof {
            use_type_invariant(self);
        }
        let target = key.to_owned();
        for i in 0..self.entries.len()
            invariant
                target@ == key@,
                self.unique_keys(),
                forall|j: int| 0 <= j < i ==> self.keys()[j] != key@,
        {
            if self.entries[i].key == target {
                proof {
                    self.lemma_entry(i as int);
                }
                return Some(i);
            }
        }
        assert(!self@.contains_key(key@));
        None
    }

    /// The current value of `key`.
    pub fn get(&self, key: &str) -> (r: Option<&V>)
        ensures
            match r {
                Some(v) => self@.contains_key(key@) && v@ == self@[key@].0,
                None => !self@.contains_key(key@),
            },
    {
        proof {
            use_type_invariant(self);
        }
        match self.find(key) {
            Some(i) => {
                proof {
                    self.lemma_entry(i as int);
                }
                Some(&self.entries[i].current)
            },
            None => None,
        }
    }

    /// The declared value of `key`.
    pub fn get_default(&self, key: &str) -> (r: Option<&V>)
        ensures
            match r {
                Some(v) => self@.contains_key(key@) && v@ == self@[key@].1,
                None => !self@.contains_key(key@),
            },
    {
        proof {
            use_type_invariant(self);
        }
        match self.find(key) {
            Some(i) => {
                proof {
                    self.lemma_entry(i as int);
                }
                Some(&self.entries[i].default)
            },
            None => None,
        }
    }

    /// The stored name equal to `key`.
    pub fn get_key(&self, key: &str) -> (r: Option<&str>)
        ensures
            match r {
                Some(s) => self@.contains_key(key@) && s@ == key@,
                None => !self@.contains_key(key@),
            },
    {
        match self.find(key) {
            Some(i) => Some(self.entries[i].key.as_str()),
            None => None,
        }
    }

    /// The view after the entry at `i` gets `current` and, when given, a new
    /// declared value.
    spec fn replaced(&self, i: int, current: V, default: Option<V>) -> Map<Seq<char>, (V::V, V::V)> {
        let k = self.entries@[i].key@;
        self@.insert(
            k,
            (
                current@,
                match default {
                    Some(d) => d@,
                    None => self@[k].1,
                },
            ),
        )
    }

    /// Replace the current value at `i` and, when given, the declared one,
    /// keeping the name; the former values come back.
    fn replace_at(&mut self, i: usize, current: V, default: Option<V>) -> (old_values: (V, Option<V>))
        requires
            i < old(self).entries@.len(),
        ensures
            old_values.0@ == old(self)@[old(self).entries@[i as int].key@].0,
            old_values.1 is Some <==> default is Some,
            old_values.1 matches Some(d) ==> d@ == old(self)@[old(self).entries@[i as int].key@].1,
            final(self)@ == old(self).replaced(i as int, current, default),
    {
        proof {
            use_type_invariant(&*self);
            self.lemma_entry(i as int);
        }
        let ghost old_table = *self;
        let ghost k = self.entries@[i as int].key@;
        let ghost new_default = match &default {
            Some(d) => d@,
            None => old_table@[k].1,
        };
        let mut entries: Vec<InputEntry<V>> = Vec::new();
        std::mem::swap(&mut entries, &mut self.entries);
        let removed = entries.remove(i);
        let InputEntry { key, current: old_current, default: old_default } = removed;
        let (kept_default, returned_default) = match default {
            Some(d) => (d, Some(old_default)),
            None => (old_default, None),
        };
        entries.insert(i, InputEntry { key, current, default: kept_default });
        proof {
            assert(entries@.map_values(|e: InputEntry<V>| e.key@) =~= old_table.keys());
        }
        self.entries = entries;
        proof {
            assert(self.keys() =~= old_table.keys());
            assert(kept_default@ == new_default);
            assert forall|x: Seq<char>| #[trigger] self@.contains_key(x) implies self@[x]
                == old_table@.insert(k, (current@, new_default))[x] by {
                let j = self.keys().index_of(x);
                assert(self.keys().contains(x));
                lemma_index_of_unique(self.keys(), j);
                assert(self.keys()[j] == x);
                if j == i {
                    assert(x == k);
                } else {
                    assert(self.entries@[j] == old_table.entries@[j]);
                    old_table.lemma_entry(j);
                }
            }
            assert(self@ =~= old_table@.insert(k, (current@, new_default)));
        }
        (old_current, returned_default)
    }

    /// Add an entry for a name not declared yet.
    fn push(&mut self, key: String, current: V, default: V)
        requires
            !old(self)@.contains_key(key@),
        ensures
            final(self)@ == old(self)@.insert(key@, (current@, default@)),
    {
        proof {
            use_type_invariant(&*self);
        }
        let ghost old_table = *self;
        let ghost k = key@;
        let mut entries: Vec<InputEntry<V>> = Vec::new();
        std::mem::swap(&mut entries, &mut self.entries);
        entries.push(InputEntry { key, current, default });
        proof {
            let ks = entries@.map_values(|e: InputEntry<V>| e.key@);
            assert(ks =~= old_table.keys().push(k));
            assert(!old_table.keys().contains(k));
            assert forall|a: int, b: int| 0 <= a < ks.len() && 0 <= b < ks.len() && a != b implies ks[a]
                != ks[b] by {
                if a == ks.len() - 1 {
                    assert(old_table.keys()[b] == ks[b]);
                } else if b == ks.len() - 1 {
                    assert(old_table.keys()[a] == ks[a]);
                }
            }
        }
        self.entries = entries;
        proof {
            let n = old_table.entries@.len() as int;
            assert(self.keys() =~= old_table.keys().push(k));
            assert forall|x: Seq<char>| #[trigger]
                old_table@.insert(k, (current@, default@)).contains_key(x) implies self@.contains_key(x)
                && self@[x] == old_table@.insert(k, (current@, default@))[x] by {
                if x == k {
                    self.lemma_entry(n);
                } else {
                    let j = old_table.keys().index_of(x);
                    assert(old_table.keys().contains(x));
                    lemma_index_of_unique(old_table.keys(), j);
                    old_table.lemma_entry(j);
                    assert(self.entries@[j] == old_table.entries@[j]);
                    self.lemma_entry(j);
                }
            }
            assert forall|x: Seq<char>| #[trigger] self@.contains_key(x) implies old_table@.insert(
                k,
                (current@, default@),
            ).contains_key(x) by {
                let j = self.keys().index_of(x);
                assert(self.keys().contains(x));
                if j < n {
                    assert(old_table.keys()[j] == x);
                    assert(old_table.keys().contains(x));
                }
            }
            assert(self@ =~= old_table@.insert(k, (current@, default@)));
        }
    }

    /// Give `key` the (current, declared) pair, declaring it when new.
    pub fn insert(&mut self, key: &str, current: V, default: V)
        ensures
            final(self)@ == old(self)@.insert(key@, (current@, default@)),
    {
        match self.find(key) {
            Some(i) => {
                let _ = self.replace_at(i, current, Some(default));
            },
            None => {
                self.push(key.to_owned(), current, default);
            },
        }
    }

    /// Set the current value of a declared `key`; its former value comes back.
    /// An undeclared `key` is left out, and `None` comes back.
    pub fn set_current(&mut self, key: &str, value: V) -> (r: Option<V>)
        ensures
            match r {
                Some(o) => old(self)@.contains_key(key@) && o@ == old(self)@[key@].0
                    && final(self)@ == old(self)@.insert(key@, (value@, old(self)@[key@].1)),
                None => !old(self)@.contains_key(key@) && final(self)@ == old(self)@,
            },
    {
        match self.find(key) {
            Some(i) => {
                let (old_current, _) = self.replace_at(i, value, None);
                Some(old_current)
            },
            None => None,
        }
    }
}


/// `m` after the current value of `key` becomes `value`; an undeclared `key`
/// leaves `m` as it is.
pub open spec fn assigned<A>(m: Map<Seq<char>, (A, A)>, key: Seq<char>, value: A) -> Map<
    Seq<char>,
    (A, A),
> {
    if m.contains_key(key) {
        m.insert(key, (value, m[key].1))
    } else {
        m
    }
}

/// `m` after the current value of `key` goes back to its declared value; an
/// undeclared `key` leaves `m` as it is.
pub open spec fn restored<A>(m: Map<Seq<char>, (A, A)>, key: Seq<char>) -> Map<Seq<char>, (A, A)> {
    if m.contains_key(key) {
        m.insert(key, (m[key].1, m[key].1))
    } else {
        m
    }
}

/// `m` after `key` is declared with `value` (current and declared alike).
pub open spec fn declared<A>(m: Map<Seq<char>, (A, A)>, key: Seq<char>, value: A) -> Map<
    Seq<char>,
    (A, A),
> {
    m.insert(key, (value, value))
}

/// A value written to a declared input is what a read gives back; the
/// declared value stays as it was, and the other inputs too.
pub proof fn law_read_after_write<A>(m: Map<Seq<char>, (A, A)>, key: Seq<char>, value: A)
    requires
        m.contains_key(key),
    ensures
        assigned(m, key, value).contains_key(key),
        assigned(m, key, value)[key].0 == value,
        assigned(m, key, value)[key].1 == m[key].1,
        forall|other: Seq<char>|
            other != key ==> #[trigger] assigned(m, key, value).contains_key(other)
                == m.contains_key(other) && (m.contains_key(other) ==> assigned(
                m,
                key,
                value,
            )[other] == m[other]),
{
}

/// Writing to an undeclared input changes nothing.
pub proof fn law_write_undeclared<A>(m: Map<Seq<char>, (A, A)>, key: Seq<char>, value: A)
    requires
        !m.contains_key(key),
    ensures
        assigned(m, key, value) == m,
{
}

/// A reset undoes every write before it: the current value is the declared
/// one again, whatever was written.
pub proof fn law_reset_undoes_write<A>(m: Map<Seq<char>, (A, A)>, key: Seq<char>, value: A)
    ensures
        restored(assigned(m, key, value), key) == restored(m, key),
        m.contains_key(key) ==> restored(m, key)[key] == (m[key].1, m[key].1),
{
    if m.contains_key(key) {
        assert(restored(assigned(m, key, value), key) =~= restored(m, key));
    }
}

/// Right after a declaration, a read gives the declared value back, and a
/// reset changes nothing.
pub proof fn law_declare_then_read<A>(m: Map<Seq<char>, (A, A)>, key: Seq<char>, value: A)
    ensures
        declared(m, key, value)[key].0 == value,
        restored(declared(m, key, value), key) == declared(m, key, value),
{
    assert(restored(declared(m, key, value), key) =~= declared(m, key, value));
}

/// A declared input: its name and initial value. A numeric value is the
/// IEEE-754 bit pattern of its `f32`.
#[derive(Debug, Clone)]
pub enum Input {
    Numeric { name: String, value: u32 },
    String { name: String, value: String },
    Boolean { name: String, value: bool },
    Event { name: String },
}

/// The name an input declares.
pub open spec fn input_name(i: Input) -> Seq<char> {
    match i {
        Input::Numeric { name, .. } => name@,
        Input::String { name, .. } => name@,
        Input::Boolean { name, .. } => name@,
        Input::Event { name } => name@,
    }
}

/// `s` without the inputs whose name starts with `@` (a namespace reserved
/// for built-ins), in order.
pub open spec fn user_inputs(s: Seq<Input>) -> Seq<Input>
    decreases s.len(),
{
    if s.len() == 0 {
        s
    } else if starts_with_char(input_name(s.last()), '@') {
        user_inputs(s.drop_last())
    } else {
        user_inputs(s.drop_last()).push(s.last())
    }
}

/// Drop the declarations of `@`-prefixed inputs; the built-ins own that
/// namespace.
pub fn without_reserved_inputs(inputs: Vec<Input>) -> (r: Vec<Input>)
    ensures
        r@ == user_inputs(inputs@),
{
    let ghost all = inputs@;
    let mut kept: Vec<Input> = Vec::new();
    for input in it: inputs.into_iter()
        invariant
            it.seq() == all,
            kept@ == user_inputs(all.take(it.index())),
    {
        assert(all.take(it.index() + 1).drop_last() =~= all.take(it.index()));
        let reserved = match &input {
            Input::Numeric { name, .. } => str_starts_with_char(name.as_str(), '@'),
            Input::String { name, .. } => str_starts_with_char(name.as_str(), '@'),
            Input::Boolean { name, .. } => str_starts_with_char(name.as_str(), '@'),
            Input::Event { name } => str_starts_with_char(name.as_str(), '@'),
        };
        if !reserved {
            kept.push(input);
        }
    }
    assert(all.take(all.len() as int) =~= all);
    kept
}

/// The value of an input. A numeric value is the IEEE-754 bit pattern of its
/// `f32`.
#[derive(Debug, Clone)]
pub enum InputValue {
    Numeric(u32),
    Boolean(bool),
    String(String),
    Event(String),
}

/// What an `InputManager` holds: for each kind, each name mapped to its
/// (current, declared) value; the events by name.
pub ghost struct InputsView {
    pub numeric: Map<Seq<char>, (u32, u32)>,
    pub boolean: Map<Seq<char>, (bool, bool)>,
    pub string: Map<Seq<char>, (Seq<char>, Seq<char>)>,
    pub event: Set<Seq<char>>,
}

/// The inputs of a running state machine.
pub struct InputManager {
    numeric: InputTable<u32>,
    boolean: InputTable<bool>,
    string: InputTable<String>,
    event: InputTable<()>,
}

impl View for InputManager {
    type V = InputsView;

    closed spec fn view(&self) -> InputsView {
        InputsView {
            numeric: self.numeric@,
            boolean: self.boolean@,
            string: self.string@,
            event: self.event@.dom(),
        }
    }
}

impl Default for InputManager {
    fn default() -> (m: Self)
        ensures
            m@.numeric == Map::<Seq<char>, (u32, u32)>::empty(),
            m@.boolean == Map::<Seq<char>, (bool, bool)>::empty(),
            m@.string == Map::<Seq<char>, (Seq<char>, Seq<char>)>::empty(),
            m@.event == Set::<Seq<char>>::empty(),
    {
        Self::new()
    }
}

impl InputManager {
    /// No input declared.
    pub fn new() -> (m: Self)
        ensures
            m@.numeric == Map::<Seq<char>, (u32, u32)>::empty(),
            m@.boolean == Map::<Seq<char>, (bool, bool)>::empty(),
            m@.string == Map::<Seq<char>, (Seq<char>, Seq<char>)>::empty(),
            m@.event == Set::<Seq<char>>::empty(),
    {
        let m = InputManager {
            numeric: InputTable::new(),
            boolean: InputTable::new(),
            string: InputTable::new(),
            event: InputTable::new(),
        };
        assert(m@.event =~= Set::<Seq<char>>::empty());
        m
    }

    /// Number of declared inputs, all kinds together.
    pub fn len(&self) -> (n: usize)
        requires
            self@.numeric.len() + self@.boolean.len() + self@.string.len() + self@.event.len()
                <= usize::MAX,
        ensures
            n == self@.numeric.len() + self@.boolean.len() + self@.string.len()
                + self@.event.len(),
    {
        self.numeric.len() + self.boolean.len() + self.string.len() + self.event.len()
    }

    /// Whether no input is declared.
    pub fn is_empty(&self) -> (b: bool)
        ensures
            b == (self@.numeric.len() == 0 && self@.boolean.len() == 0 && self@.string.len() == 0
                && self@.event.len() == 0),
    {
        self.numeric.is_empty() && self.boolean.is_empty() && self.string.is_empty()
            && self.event.is_empty()
    }

    /// Declare numeric `key` with `value`, or redeclare it (its current and
    /// declared value both become `value`).
    pub fn set_initial_numeric(&mut self, key: &str, value: u32)
        requires
            old(self)@.numeric.contains_key(key@) || !key@.contains('\0'),
        ensures
            final(self)@ == (InputsView { numeric: declared(old(self)@.numeric, key@, value), ..old(self)@ }),
    {
        self.numeric.insert(key, value, value);
    }

    /// Declare string `key` with `value`, or redeclare it.
    pub fn set_initial_string(&mut self, key: &str, value: &str)
        requires
            old(self)@.string.contains_key(key@) || !key@.contains('\0'),
        ensures
            final(self)@ == (InputsView { string: declared(old(self)@.string, key@, value@), ..old(self)@ }),
    {
        self.string.insert(key, value.to_owned(), value.to_owned());
    }

    /// Declare boolean `key` with `value`, or redeclare it.
    pub fn set_initial_boolean(&mut self, key: &str, value: bool)
        requires
            old(self)@.boolean.contains_key(key@) || !key@.contains('\0'),
        ensures
            final(self)@ == (InputsView { boolean: declared(old(self)@.boolean, key@, value), ..old(self)@ }),
    {
        self.boolean.insert(key, value, value);
    }

    /// Declare event `key`.
    pub fn set_initial_event(&mut self, key: &str)
        requires
            !key@.contains('\0'),
        ensures
            final(self)@ == (InputsView { event: old(self)@.event.insert(key@), ..old(self)@ }),
    {
        self.event.insert(key, (), ());
        assert(self@.event =~= old(self)@.event.insert(key@));
    }

    /// Set numeric `key` to `value`; its former value comes back. An
    /// undeclared `key` changes nothing and gives `None`.
    pub fn set_numeric(&mut self, key: &str, value: u32) -> (r: Option<u32>)
        ensures
            r == (if old(self)@.numeric.contains_key(key@) {
                Some(old(self)@.numeric[key@].0)
            } else {
                None
            }),
            final(self)@ == (InputsView { numeric: assigned(old(self)@.numeric, key@, value), ..old(self)@ }),
    {
        self.numeric.set_current(key, value)
    }

    /// Set boolean `key` to `value`; its former value comes back. An
    /// undeclared `key` changes nothing and gives `None`.
    pub fn set_boolean(&mut self, key: &str, value: bool) -> (r: Option<bool>)
        ensures
            r == (if old(self)@.boolean.contains_key(key@) {
                Some(old(self)@.boolean[key@].0)
            } else {
                None
            }),
            final(self)@ == (InputsView { boolean: assigned(old(self)@.boolean, key@, value), ..old(self)@ }),
    {
        self.boolean.set_current(key, value)
    }

    /// Set string `key` to `value`; its former value comes back. An
    /// undeclared `key` changes nothing and gives `None`.
    pub fn set_string(&mut self, key: &str, value: String) -> (r: Option<String>)
        ensures
            r is Some == old(self)@.string.contains_key(key@),
            r matches Some(o) ==> o@ == old(self)@.string[key@].0,
            final(self)@ == (InputsView { string: assigned(old(self)@.string, key@, value@), ..old(self)@ }),
    {
        self.string.set_current(key, value)
    }

    /// Current value of numeric `key`.
    pub fn get_numeric(&self, key: &str) -> (r: Option<u32>)
        ensures
            r == (if self@.numeric.contains_key(key@) {
                Some(self@.numeric[key@].0)
            } else {
                None
            }),
    {
        match self.numeric.get(key) {
            Some(v) => Some(*v),
            None => None,
        }
    }

    /// Current value of boolean `key`.
    pub fn get_boolean(&self, key: &str) -> (r: Option<bool>)
        ensures
            r == (if self@.boolean.contains_key(key@) {
                Some(self@.boolean[key@].0)
            } else {
                None
            }),
    {
        match self.boolean.get(key) {
            Some(v) => Some(*v),
            None => None,
        }
    }

    /// Current value of string `key`.
    pub fn get_string(&self, key: &str) -> (r: Option<&str>)
        ensures
            r is Some == self@.string.contains_key(key@),
            r matches Some(v) ==> v@ == self@.string[key@].0,
    {
        match self.string.get(key) {
            Some(v) => Some(v.as_str()),
            None => None,
        }
    }

    /// The name of event `key`, when it is declared.
    pub fn get_event(&self, key: &str) -> (r: Option<&str>)
        ensures
            r is Some == self@.event.contains(key@),
            r matches Some(v) ==> v@ == key@,
    {
        self.event.get_key(key)
    }

    /// Put `key` back to its declared value. The numeric inputs are looked at
    /// first, then the boolean, then the string ones; the (former, declared)
    /// values come back, or `None` when no input of those kinds has that name.
    pub fn reset(&mut self, key: &str) -> (r: Option<(InputValue, InputValue)>)
        ensures
            old(self)@.numeric.contains_key(key@) ==> r == Some(
                (
                    InputValue::Numeric(old(self)@.numeric[key@].0),
                    InputValue::Numeric(old(self)@.numeric[key@].1),
                ),
            ) && final(self)@ == (InputsView { numeric: restored(old(self)@.numeric, key@), ..old(self)@ }),
            !old(self)@.numeric.contains_key(key@) && old(self)@.boolean.contains_key(key@) ==> r
                == Some(
                (
                    InputValue::Boolean(old(self)@.boolean[key@].0),
                    InputValue::Boolean(old(self)@.boolean[key@].1),
                ),
            ) && final(self)@ == (InputsView { boolean: restored(old(self)@.boolean, key@), ..old(self)@ }),
            !old(self)@.numeric.contains_key(key@) && !old(self)@.boolean.contains_key(key@)
                && old(self)@.string.contains_key(key@) ==> (match r {
                Some((InputValue::String(former), InputValue::String(declared_value))) => former@
                    == old(self)@.string[key@].0 && declared_value@ == old(self)@.string[key@].1,
                _ => false,
            }) && final(self)@ == (InputsView { string: restored(old(self)@.string, key@), ..old(self)@ }),
            !old(self)@.numeric.contains_key(key@) && !old(self)@.boolean.contains_key(key@)
                && !old(self)@.string.contains_key(key@) ==> r is None && final(self)@ == old(self)@,
    {
        if let Some(d) = self.numeric.get_default(key) {
            let d = *d;
            return match self.numeric.set_current(key, d) {
                Some(former) => Some((InputValue::Numeric(former), InputValue::Numeric(d))),
                None => None,
            };
        }
        if let Some(d) = self.boolean.get_default(key) {
            let d = *d;
            return match self.boolean.set_current(key, d) {
                Some(former) => Some((InputValue::Boolean(former), InputValue::Boolean(d))),
                None => None,
            };
        }
        if let Some(d) = self.string.get_default(key) {
            let d = d.clone();
            let returned = d.clone();
            return match self.string.set_current(key, d) {
                Some(former) => Some((InputValue::String(former), InputValue::String(returned))),
                None => None,
            };
        }
        None
    }
}

} // verus!
