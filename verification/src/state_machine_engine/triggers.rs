//! Triggers: named values that a definition declares with defaults, that the
//! host may set, and that can be reset. Numbers are IEEE-754 bit patterns of
//! `f32` values.
use vstd::prelude::*;

use crate::state_machine::inputs::lemma_index_of_unique;

verus! {

/// A declared trigger: its name and initial value.
#[derive(Debug, Clone)]
pub enum Trigger {
    Numeric { name: String, value: u32 },
    String { name: String, value: String },
    Boolean { name: String, value: bool },
    Event { name: String },
}

/// The value of a trigger.
#[derive(Debug)]
pub enum TriggerValue {
    Numeric(u32),
    String(String),
    Boolean(bool),
}

/// A trigger value as a mathematical value.
pub ghost enum TriggerValueView {
    Numeric(u32),
    String(Seq<char>),
    Boolean(bool),
}

impl View for TriggerValue {
    type V = TriggerValueView;

    open spec fn view(&self) -> TriggerValueView {
        match self {
            TriggerValue::Numeric(v) => TriggerValueView::Numeric(*v),
            TriggerValue::String(s) => TriggerValueView::String(s@),
            TriggerValue::Boolean(b) => TriggerValueView::Boolean(*b),
        }
    }
}

impl Clone for TriggerValue {
    /// A value equal to this one.
    fn clone(&self) -> (r: Self)
        ensures
            r@ == self@,
    {
        match self {
            TriggerValue::Numeric(v) => TriggerValue::Numeric(*v),
            TriggerValue::String(s) => TriggerValue::String(s.clone()),
            TriggerValue::Boolean(b) => TriggerValue::Boolean(*b),
        }
    }
}

/// Trigger values by name; no name occurs twice.
pub struct TriggerTable {
    entries: Vec<(String, TriggerValue)>,
}

impl TriggerTable {
    /// The names, in the order they were added.
    pub closed spec fn keys(&self) -> Seq<Seq<char>> {
        self.entries@.map_values(|e: (String, TriggerValue)| e.0@)
    }

    /// No name occurs twice.
    #[verifier::type_invariant]
    closed spec fn unique_keys(&self) -> bool {
        self.keys().no_duplicates()
    }
}

impl View for TriggerTable {
    type V = Map<Seq<char>, TriggerValueView>;

    closed spec fn view(&self) -> Map<Seq<char>, TriggerValueView> {
        Map::new(
            |k: Seq<char>| self.keys().contains(k),
            |k: Seq<char>| self.entries@[self.keys().index_of(k)].1@,
        )
    }
}

impl TriggerTable {
    /// The entry at `i` is what the view holds for its name.
    proof fn lemma_entry(&self, i: int)
        requires
            self.unique_keys(),
            0 <= i < self.entries@.len(),
        ensures
            self.keys()[i] == self.entries@[i].0@,
            self@.contains_key(self.entries@[i].0@),
            self@[self.entries@[i].0@] == self.entries@[i].1@,
    {
        lemma_index_of_unique(self.keys(), i);
    }

    /// An empty table.
    pub fn new() -> (t: Self)
        ensures
            t@ == Map::<Seq<char>, TriggerValueView>::empty(),
    {
        let t = TriggerTable { entries: Vec::new() };
        assert(t@ =~= Map::<Seq<char>, TriggerValueView>::empty());
        t
    }

    /// Where `key` is stored, if anywhere.
    fn find(&self, key: &str) -> (r: Option<usize>)
        ensures
            match r {
                Some(i) => i < self.entries@.len() && self.entries@[i as int].0@ == key@
                    && self@.contains_key(key@),
                None => !self@.contains_key(key@),
            },
    {
        proof {
            use_type_invariant(self);
        }
        let target = key.to_owned();
        for i in 0..self.entries.len()
            invariant
                target@ == key@,
                self.unique_keys(),
                forall|j: int| 0 <= j < i ==> self.keys()[j] != key@,
        {
            if self.entries[i].0 == target {
                proof {
                    self.lemma_entry(i as int);
                }
                return Some(i);
            }
        }
        assert(!self@.contains_key(key@));
        None
    }

    /// The value of `key`.
    pub fn get(&self, key: &str) -> (r: Option<&TriggerValue>)
        ensures
            match r {
                Some(v) => self@.contains_key(key@) && v@ == self@[key@],
                None => !self@.contains_key(key@),
            },
    {
        proof {
            use_type_invariant(self);
        }
        match self.find(key) {
            Some(i) => {
                proof {
                    self.lemma_entry(i as int);
                }
                Some(&self.entries[i].1)
            },
            None => None,
        }
    }

    /// Give `key` the value `value`; its former value, if any, comes back.
    pub fn insert(&mut self, key: &str, value: TriggerValue) -> (r: Option<TriggerValue>)
        ensures
            match r {
                Some(o) => old(self)@.contains_key(key@) && o@ == old(self)@[key@],
                None => !old(self)@.contains_key(key@),
            },
            final(self)@ == old(self)@.insert(key@, value@),
    {
        proof {
            use_type_invariant(&*self);
        }
        let ghost old_table = *self;
        let ghost k = key@;
        let found = self.find(key);
        let mut entries: Vec<(String, TriggerValue)> = Vec::new();
        std::mem::swap(&mut entries, &mut self.entries);
        match found {
            Some(i) => {
                proof {
                    old_table.lemma_entry(i as int);
                }
                let (stored, former) = entries.remove(i);
                entries.insert(i, (stored, value));
                proof {
                    assert(entries@.map_values(|e: (String, TriggerValue)| e.0@) =~= old_table.keys());
                }
                self.entries = entries;
                proof {
                    assert(self.keys() =~= old_table.keys());
                    assert forall|x: Seq<char>| #[trigger] self@.contains_key(x) implies self@[x]
                        == old_table@.insert(k, value@)[x] by {
                        let j = self.keys().index_of(x);
                        assert(self.keys().contains(x));
                        lemma_index_of_unique(self.keys(), j);
                        if j != i {
                            assert(self.entries@[j] == old_table.entries@[j]);
                            old_table.lemma_entry(j);
                        }
                    }
                    assert(self@ =~= old_table@.insert(k, value@));
                }
                Some(former)
            },
            None => {
                entries.push((key.to_owned(), value));
                proof {
                    let ks = entries@.map_values(|e: (String, TriggerValue)| e.0@);
                    assert(ks =~= old_table.keys().push(k));
                    assert(!old_table.keys().contains(k));
                    assert forall|a: int, b: int|
                        0 <= a < ks.len() && 0 <= b < ks.len() && a != b implies ks[a] != ks[b] by {
                        if a == ks.len() - 1 {
                            assert(old_table.keys()[b] == ks[b]);
                        } else if b == ks.len() - 1 {
                            assert(old_table.keys()[a] == ks[a]);
                        }
                    }
                }
                self.entries = entries;
                proof {
                    let n = old_table.entries@.len() as int;
                    assert(self.keys() =~= old_table.keys().push(k));
                    assert forall|x: Seq<char>| #[trigger]
                        old_table@.insert(k, value@).contains_key(x) implies self@.contains_key(x)
                        && self@[x] == old_table@.insert(k, value@)[x] by {
                        if x == k {
                            self.lemma_entry(n);
                        } else {
                            let j = old_table.keys().index_of(x);
                            assert(old_table.keys().contains(x));
                            lemma_index_of_unique(old_table.keys(), j);
                            old_table.lemma_entry(j);
                            assert(self.entries@[j] == old_table.entries@[j]);
                            self.lemma_entry(j);
                        }
                    }
                    assert forall|x: Seq<char>| #[trigger] self@.contains_key(x) implies old_table@.insert(
                        k,
                        value@,
                    ).contains_key(x) by {
                        let j = self.keys().index_of(x);
                        assert(self.keys().contains(x));
                        if j < n {
                            assert(old_table.keys()[j] == x);
                            assert(old_table.keys().contains(x));
                        }
                    }
                    assert(self@ =~= old_table@.insert(k, value@));
                }
                None
            },
        }
    }

    /// A table with the same values.
    pub fn duplicate(&self) -> (t: Self)
        ensures
            t@ == self@,
    {
        proof {
            use_type_invariant(self);
        }
        let mut entries: Vec<(String, TriggerValue)> = Vec::new();
        for i in 0..self.entries.len()
            invariant
                entries@.len() == i,
                forall|j: int|
                    0 <= j < i ==> #[trigger] entries@[j].0@ == self.entries@[j].0@ && entries@[j].1@
                        == self.entries@[j].1@,
        {
            let (k, v) = &self.entries[i];
            entries.push((k.clone(), v.clone()));
        }
        let ghost ks = entries@.map_values(|e: (String, TriggerValue)| e.0@);
        assert(ks =~= self.keys());
        let t = TriggerTable { entries };
        proof {
            assert(t.keys() =~= self.keys());
            assert forall|x: Seq<char>| #[trigger] t@.contains_key(x) implies t@[x] == self@[x] by {
                let j = t.keys().index_of(x);
                assert(t.keys().contains(x));
                lemma_index_of_unique(t.keys(), j);
            }
            assert(t@ =~= self@);
        }
        t
    }
}

/// What a `TriggerManager` holds: the current values and the declared
/// defaults, by name.
pub ghost struct TriggersView {
    pub current: Map<Seq<char>, TriggerValueView>,
    pub defaults: Map<Seq<char>, TriggerValueView>,
}

/// Named trigger values and their defaults.
pub struct TriggerManager {
    triggers: TriggerTable,
    default_values: TriggerTable,
}

impl View for TriggerManager {
    type V = TriggersView;

    closed spec fn view(&self) -> TriggersView {
        TriggersView { current: self.triggers@, defaults: self.default_values@ }
    }
}

/// `v` as an `Option` of views.
pub open spec fn view_of(v: Option<TriggerValue>) -> Option<TriggerValueView> {
    match v {
        Some(x) => Some(x@),
        None => None,
    }
}

/// The current value under `key`, if any.
pub open spec fn current_value(t: TriggersView, key: Seq<char>) -> Option<TriggerValueView> {
    if t.current.contains_key(key) {
        Some(t.current[key])
    } else {
        None
    }
}

/// The operations on triggers.
pub trait TriggerTrait: Sized {
    fn set_initial_boolean(&mut self, key: &str, value: bool);

    fn set_initial_string(&mut self, key: &str, value: String);

    fn set_initial_numeric(&mut self, key: &str, value: u32);

    fn new() -> Self;

    fn set_boolean(&mut self, key: &str, value: bool) -> Option<TriggerValue>;

    fn set_string(&mut self, key: &str, value: String) -> Option<TriggerValue>;

    fn set_numeric(&mut self, key: &str, value: u32) -> Option<TriggerValue>;

    fn get_numeric(&self, key: &str) -> Option<u32>;

    fn get_string(&self, key: &str) -> Option<String>;

    fn get_boolean(&self, key: &str) -> Option<bool>;

    fn get(&self, key: &str) -> Result<&TriggerValue, &'static str>;

    fn reset_all(&mut self);

    fn reset(&mut self, key: &str) -> Option<(TriggerValue, TriggerValue)>;
}

impl TriggerTrait for TriggerManager {
    /// Declare a boolean trigger: current value and default both `value`.
    fn set_initial_boolean(&mut self, key: &str, value: bool)
        ensures
            final(self)@.current == old(self)@.current.insert(key@, TriggerValueView::Boolean(value)),
            final(self)@.defaults == old(self)@.defaults.insert(key@, TriggerValueView::Boolean(value)),
    {
        self.triggers.insert(key, TriggerValue::Boolean(value));
        self.default_values.insert(key, TriggerValue::Boolean(value));
    }

    /// Declare a string trigger: current value and default both `value`.
    fn set_initial_string(&mut self, key: &str, value: String)
        ensures
            final(self)@.current == old(self)@.current.insert(key@, TriggerValueView::String(value@)),
            final(self)@.defaults == old(self)@.defaults.insert(key@, TriggerValueView::String(value@)),
    {
        self.triggers.insert(key, TriggerValue::String(value.clone()));
        self.default_values.insert(key, TriggerValue::String(value));
    }

    /// Declare a numeric trigger: current value and default both `value`.
    fn set_initial_numeric(&mut self, key: &str, value: u32)
        ensures
            final(self)@.current == old(self)@.current.insert(key@, TriggerValueView::Numeric(value)),
            final(self)@.defaults == old(self)@.defaults.insert(key@, TriggerValueView::Numeric(value)),
    {
        self.triggers.insert(key, TriggerValue::Numeric(value));
        self.default_values.insert(key, TriggerValue::Numeric(value));
    }

    /// No trigger.
    fn new() -> (m: Self)
        ensures
            m@.current == Map::<Seq<char>, TriggerValueView>::empty(),
            m@.defaults == Map::<Seq<char>, TriggerValueView>::empty(),
    {
        TriggerManager { triggers: TriggerTable::new(), default_values: TriggerTable::new() }
    }

    /// Set `key` to a boolean (whatever it held before, declared or not); the
    /// former value comes back.
    fn set_boolean(&mut self, key: &str, value: bool) -> (r: Option<TriggerValue>)
        ensures
            view_of(r) == current_value(old(self)@, key@),
            final(self)@.current == old(self)@.current.insert(key@, TriggerValueView::Boolean(value)),
            final(self)@.defaults == old(self)@.defaults,
    {
        self.triggers.insert(key, TriggerValue::Boolean(value))
    }

    /// Set `key` to a string; the former value comes back.
    fn set_string(&mut self, key: &str, value: String) -> (r: Option<TriggerValue>)
        ensures
            view_of(r) == current_value(old(self)@, key@),
            final(self)@.current == old(self)@.current.insert(key@, TriggerValueView::String(value@)),
            final(self)@.defaults == old(self)@.defaults,
    {
        self.triggers.insert(key, TriggerValue::String(value))
    }

    /// Set `key` to a number; the former value comes back.
    fn set_numeric(&mut self, key: &str, value: u32) -> (r: Option<TriggerValue>)
        ensures
            view_of(r) == current_value(old(self)@, key@),
            final(self)@.current == old(self)@.current.insert(key@, TriggerValueView::Numeric(value)),
            final(self)@.defaults == old(self)@.defaults,
    {
        self.triggers.insert(key, TriggerValue::Numeric(value))
    }

    /// The number under `key`; nothing when it holds another kind of value.
    fn get_numeric(&self, key: &str) -> (r: Option<u32>)
        ensures
            r == match current_value(self@, key@) {
                Some(TriggerValueView::Numeric(v)) => Some(v),
                _ => None,
            },
    {
        match self.triggers.get(key) {
            Some(TriggerValue::Numeric(v)) => Some(*v),
            _ => None,
        }
    }

    /// The string under `key`; nothing when it holds another kind of value.
    fn get_string(&self, key: &str) -> (r: Option<String>)
        ensures
            match current_value(self@, key@) {
                Some(TriggerValueView::String(s)) => r matches Some(v) && v@ == s,
                _ => r is None,
            },
    {
        match self.triggers.get(key) {
            Some(TriggerValue::String(v)) => Some(v.clone()),
            _ => None,
        }
    }

    /// The boolean under `key`; nothing when it holds another kind of value.
    fn get_boolean(&self, key: &str) -> (r: Option<bool>)
        ensures
            r == match current_value(self@, key@) {
                Some(TriggerValueView::Boolean(v)) => Some(v),
                _ => None,
            },
    {
        match self.triggers.get(key) {
            Some(TriggerValue::Boolean(v)) => Some(*v),
            _ => None,
        }
    }

    /// The value under `key`, or an error that names the problem.
    fn get(&self, key: &str) -> (r: Result<&TriggerValue, &'static str>)
        ensures
            match r {
                Ok(v) => current_value(self@, key@) == Some(v@),
                Err(e) => current_value(self@, key@) is None && e@ == "Trigger key not found"@,
            },
    {
        match self.triggers.get(key) {
            Some(v) => Ok(v),
            None => Err("Trigger key not found"),
        }
    }

    /// Every trigger back to its default; triggers set but never declared are
    /// dropped.
    fn reset_all(&mut self)
        ensures
            final(self)@.current == old(self)@.defaults,
            final(self)@.defaults == old(self)@.defaults,
    {
        self.triggers = self.default_values.duplicate();
    }

    /// Put a declared `key` back to its default. The (former, default) values
    /// come back; a key with a default but no current value reports the
    /// default as its former value. An undeclared key gives `None`.
    fn reset(&mut self, key: &str) -> (r: Option<(TriggerValue, TriggerValue)>)
        ensures
            match r {
                Some((former, default)) => {
                    &&& old(self)@.defaults.contains_key(key@)
                    &&& default@ == old(self)@.defaults[key@]
                    &&& former@ == match current_value(old(self)@, key@) {
                        Some(v) => v,
                        None => old(self)@.defaults[key@],
                    }
                    &&& final(self)@.current == old(self)@.current.insert(key@, old(self)@.defaults[key@])
                    &&& final(self)@.defaults == old(self)@.defaults
                },
                None => !old(self)@.defaults.contains_key(key@) && final(self)@ == old(self)@,
            },
    {
        match self.default_values.get(key) {
            Some(default) => {
                let stored = default.clone();
                let returned = default.clone();
                let fallback = default.clone();
                let former = match self.triggers.insert(key, stored) {
                    Some(v) => v,
                    None => fallback,
                };
                Some((former, returned))
            },
            None => None,
        }
    }
}

/// A value set on a trigger is what a read gives back, whatever the trigger
/// held before.
pub proof fn law_read_after_set(t: TriggersView, key: Seq<char>, value: TriggerValueView)
    ensures
        current_value(TriggersView { current: t.current.insert(key, value), ..t }, key) == Some(value),
{
}

/// After a reset of every trigger, each reads its default, and a trigger
/// that was never declared reads nothing.
pub proof fn law_reset_all_restores_defaults(t: TriggersView, key: Seq<char>)
    ensures
        current_value(TriggersView { current: t.defaults, ..t }, key) == if t.defaults.contains_key(key) {
            Some(t.defaults[key])
        } else {
            None
        },
{
}

} // verus!
