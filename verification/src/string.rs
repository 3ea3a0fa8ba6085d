//! `DotString`: a cheaply cloneable, immutable string. Cloning shares the
//! storage (a reference-count bump); the text never holds a NUL character,
//! so it can be handed to C as a NUL-terminated string.
use vstd::prelude::*;

use std::cmp::Ordering;
use std::sync::Arc;

use crate::text::{chars_eq, chars_of, compare_chars, contains_char, text_sign};

verus! {

/// Error returned when constructing a `DotString` from text that contains a
/// NUL character.
#[derive(Debug, Clone, Copy, PartialEq, Eq, Structural)]
pub struct InteriorNul;

impl InteriorNul {
    /// The error's message.
    pub fn message(&self) -> (m: String)
        ensures
            m@ == "DotString: interior null byte not allowed"@,
    {
        "DotString: interior null byte not allowed".to_owned()
    }
}

/// Whether two shared strings live in the same allocation (`Arc::ptr_eq`);
/// when they do, they hold the same text.
#[verifier::external_body]
fn same_allocation(a: &Arc<String>, b: &Arc<String>) -> (r: bool)
    ensures
        r ==> a == b,
{
    Arc::ptr_eq(a, b)
}

/// Immutable, reference-counted string without NUL characters.
#[derive(Debug, Hash, Ord)]
pub struct DotString {
    inner: Arc<String>,
}

impl View for DotString {
    type V = Seq<char>;

    closed spec fn view(&self) -> Seq<char> {
        (*self.inner)@
    }
}

impl DotString {
    /// The text holds no NUL character.
    #[verifier::type_invariant]
    spec fn no_nul(&self) -> bool {
        !(*self.inner)@.contains('\0')
    }

    /// Construct from a `&str` that holds no NUL character (it panics on one).
    pub fn new(s: &str) -> (d: Self)
        requires
            !s@.contains('\0'),
        ensures
            d@ == s@,
    {
        match Self::try_new(s) {
            Ok(d) => d,
            Err(_) => Self::empty(),
        }
    }

    /// Construct from a `&str`; `Err(InteriorNul)` when it holds a NUL character.
    pub fn try_new(s: &str) -> (r: Result<Self, InteriorNul>)
        ensures
            r is Ok <==> !s@.contains('\0'),
            r matches Ok(d) ==> d@ == s@,
    {
        if contains_char(&chars_of(s), '\0') {
            return Err(InteriorNul);
        }
        Ok(DotString { inner: Arc::new(s.to_owned()) })
    }

    /// Take ownership of a `String` that holds no NUL character (it panics on one).
    pub fn from_string(s: String) -> (d: Self)
        requires
            !s@.contains('\0'),
        ensures
            d@ == s@,
    {
        match Self::try_from_string(s) {
            Ok(d) => d,
            Err(_) => Self::empty(),
        }
    }

    /// Take ownership of a `String`; `Err(InteriorNul)` when it holds a NUL character.
    pub fn try_from_string(s: String) -> (r: Result<Self, InteriorNul>)
        ensures
            r is Ok <==> !s@.contains('\0'),
            r matches Ok(d) ==> d@ == s@,
    {
        if contains_char(&chars_of(s.as_str()), '\0') {
            return Err(InteriorNul);
        }
        Ok(DotString { inner: Arc::new(s) })
    }

    /// The empty string.
    pub fn empty() -> (d: Self)
        ensures
            d@ == Seq::<char>::empty(),
    {
        let d = DotString { inner: Arc::new(String::new()) };
        d
    }

    /// View as a `&str`; the text holds no NUL character.
    pub fn as_str(&self) -> (s: &str)
        ensures
            s@ == self@,
            !s@.contains('\0'),
    {
        proof {
            use_type_invariant(self);
        }
        self.inner.as_str()
    }

    /// Length in bytes of the UTF-8 encoding.
    pub fn len(&self) -> (n: usize)
        ensures
            n == vstd::utf8::encode_utf8(self@).len() as usize,
    {
        self.as_str().len()
    }

    /// Whether the string is empty.
    pub fn is_empty(&self) -> (b: bool)
        ensures
            b == (self@.len() == 0),
    {
        self.as_str().is_empty()
    }

    /// Whether `self` and `other` share one allocation (clones do).
    pub fn shares_storage(&self, other: &DotString) -> (b: bool)
        ensures
            b ==> self@ == other@,
    {
        same_allocation(&self.inner, &other.inner)
    }
}

impl Clone for DotString {
    /// A second handle on the same storage.
    fn clone(&self) -> (d: Self)
        ensures
            d@ == self@,
    {
        proof {
            use_type_invariant(self);
        }
        DotString { inner: self.inner.clone() }
    }
}

impl PartialEq for DotString {
    fn eq(&self, other: &Self) -> (r: bool) {
        if same_allocation(&self.inner, &other.inner) {
            return true;
        }
        *self.inner == *other.inner
    }
}

impl vstd::std_specs::cmp::PartialEqSpecImpl for DotString {
    open spec fn obeys_eq_spec() -> bool {
        true
    }

    open spec fn eq_spec(&self, other: &DotString) -> bool {
        self@ == other@
    }
}

impl PartialOrd for DotString {
    /// Strings order as their texts do (see `text_sign`).
    fn partial_cmp(&self, other: &Self) -> (r: Option<Ordering>) {
        let sign = compare_chars(&chars_of(self.as_str()), &chars_of(other.as_str()));
        if sign < 0 {
            Some(Ordering::Less)
        } else if sign == 0 {
            Some(Ordering::Equal)
        } else {
            Some(Ordering::Greater)
        }
    }
}

impl vstd::std_specs::cmp::PartialOrdSpecImpl for DotString {
    open spec fn obeys_partial_cmp_spec() -> bool {
        true
    }

    open spec fn partial_cmp_spec(&self, other: &Self) -> Option<Ordering> {
        Some(
            if text_sign(self@, other@) < 0 {
                Ordering::Less
            } else if text_sign(self@, other@) == 0 {
                Ordering::Equal
            } else {
                Ordering::Greater
            },
        )
    }
}

impl Eq for DotString {

}

impl PartialEq<str> for DotString {
    fn eq(&self, other: &str) -> (r: bool) {
        chars_eq(&chars_of(self.as_str()), &chars_of(other))
    }
}

impl vstd::std_specs::cmp::PartialEqSpecImpl<str> for DotString {
    open spec fn obeys_eq_spec() -> bool {
        true
    }

    open spec fn eq_spec(&self, other: &str) -> bool {
        self@ == other@
    }
}

impl<'a> PartialEq<&'a str> for DotString {
    fn eq(&self, other: &&'a str) -> (r: bool) {
        chars_eq(&chars_of(self.as_str()), &chars_of(*other))
    }
}

impl<'a> vstd::std_specs::cmp::PartialEqSpecImpl<&'a str> for DotString {
    open spec fn obeys_eq_spec() -> bool {
        true
    }

    open spec fn eq_spec(&self, other: &&'a str) -> bool {
        self@ == (*other)@
    }
}

impl PartialEq<DotString> for str {
    fn eq(&self, other: &DotString) -> (r: bool) {
        chars_eq(&chars_of(self), &chars_of(other.as_str()))
    }
}

impl vstd::std_specs::cmp::PartialEqSpecImpl<DotString> for str {
    open spec fn obeys_eq_spec() -> bool {
        true
    }

    open spec fn eq_spec(&self, other: &DotString) -> bool {
        self@ == other@
    }
}

impl<'a> PartialEq<DotString> for &'a str {
    fn eq(&self, other: &DotString) -> (r: bool) {
        chars_eq(&chars_of(*self), &chars_of(other.as_str()))
    }
}

impl<'a> vstd::std_specs::cmp::PartialEqSpecImpl<DotString> for &'a str {
    open spec fn obeys_eq_spec() -> bool {
        true
    }

    open spec fn eq_spec(&self, other: &DotString) -> bool {
        (*self)@ == other@
    }
}

impl std::ops::Deref for DotString {
    type Target = str;

    fn deref(&self) -> (s: &str)
        ensures
            s@ == self@,
    {
        self.as_str()
    }
}

/// The characters of a string slice.
pub open spec fn str_view(s: &str) -> Seq<char> {
    s@
}

impl std::borrow::Borrow<str> for DotString {
    fn borrow(&self) -> (s: &str)
        ensures
            str_view(s) == self@,
    {
        self.as_str()
    }
}

impl Default for DotString {
    fn default() -> (d: Self)
        ensures
            d@ == Seq::<char>::empty(),
    {
        DotString::empty()
    }
}

/// A small dedup cache. Interning a text already seen gives a clone of the
/// stored `DotString` (sharing its storage); a new text is stored once.
pub struct DotStringInterner {
    table: Vec<DotString>,
}

impl DotStringInterner {
    /// The stored texts, in the order they were first interned.
    pub closed spec fn texts(&self) -> Seq<Seq<char>> {
        self.table@.map_values(|d: DotString| d@)
    }

    /// No text is stored twice.
    #[verifier::type_invariant]
    closed spec fn distinct(&self) -> bool {
        self.texts().no_duplicates()
    }
}

impl View for DotStringInterner {
    /// The texts interned so far.
    type V = Set<Seq<char>>;

    closed spec fn view(&self) -> Set<Seq<char>> {
        self.texts().to_set()
    }
}

impl Default for DotStringInterner {
    fn default() -> (i: Self)
        ensures
            i@ == Set::<Seq<char>>::empty(),
    {
        Self::new()
    }
}

impl DotStringInterner {
    /// An empty interner.
    pub fn new() -> (i: Self)
        ensures
            i@ == Set::<Seq<char>>::empty(),
    {
        let i = DotStringInterner { table: Vec::new() };
        assert(i@ =~= Set::<Seq<char>>::empty());
        i
    }

    /// An empty interner with room for `cap` texts.
    pub fn with_capacity(cap: usize) -> (i: Self)
        ensures
            i@ == Set::<Seq<char>>::empty(),
    {
        let i = DotStringInterner { table: Vec::with_capacity(cap) };
        assert(i@ =~= Set::<Seq<char>>::empty());
        i
    }

    /// A `DotString` for `s`: the stored one when `s` was interned before,
    /// else a new one, which is stored. A new text must not hold a NUL
    /// character.
    pub fn intern(&mut self, s: &str) -> (d: DotString)
        requires
            old(self)@.contains(s@) || !s@.contains('\0'),
        ensures
            d@ == s@,
            final(self)@ == old(self)@.insert(s@),
    {
        proof {
            use_type_invariant(&*self);
        }
        let ghost old_texts = self.texts();
        let target = chars_of(s);
        for i in 0..self.table.len()
            invariant
                target@ == s@,
                old_texts == self.texts(),
                forall|j: int| 0 <= j < i ==> old_texts[j] != s@,
        {
            if chars_eq(&chars_of(self.table[i].as_str()), &target) {
                assert(old_texts[i as int] == s@);
                assert(self@ =~= self@.insert(s@));
                return self.table[i].clone();
            }
        }
        assert(!old_texts.contains(s@));
        let d = DotString::new(s);
        let mut table: Vec<DotString> = Vec::new();
        std::mem::swap(&mut table, &mut self.table);
        table.push(d.clone());
        proof {
            let ts = table@.map_values(|x: DotString| x@);
            assert(ts =~= old_texts.push(s@));
            assert forall|a: int, b: int| 0 <= a < ts.len() && 0 <= b < ts.len() && a != b implies ts[a]
                != ts[b] by {
                if a == ts.len() - 1 {
                    assert(old_texts[b] == ts[b]);
                } else if b == ts.len() - 1 {
                    assert(old_texts[a] == ts[a]);
                }
            }
        }
        self.table = table;
        proof {
            let ts = self.texts();
            assert(ts =~= old_texts.push(s@));
            assert forall|x: Seq<char>| #[trigger] ts.to_set().contains(x) == old_texts.to_set().insert(
                s@,
            ).contains(x) by {
                if ts.contains(x) {
                    let j = choose|j: int| 0 <= j < ts.len() && ts[j] == x;
                    if j < old_texts.len() {
                        assert(old_texts[j] == x);
                    }
                }
                if old_texts.contains(x) {
                    let j = choose|j: int| 0 <= j < old_texts.len() && old_texts[j] == x;
                    assert(ts[j] == x);
                }
                if x == s@ {
                    assert(ts[old_texts.len() as int] == x);
                }
            }
            assert(self@ =~= old(self)@.insert(s@));
        }
        d
    }

    /// Number of distinct texts interned.
    pub fn len(&self) -> (n: usize)
        ensures
            n == self@.len(),
            self@.finite(),
    {
        proof {
            use_type_invariant(self);
            self.texts().unique_seq_to_set();
        }
        self.table.len()
    }

    /// Whether nothing is interned.
    pub fn is_empty(&self) -> (b: bool)
        ensures
            b == (self@.len() == 0),
    {
        self.len() == 0
    }

    /// Forget every interned text.
    pub fn clear(&mut self)
        ensures
            final(self)@ == Set::<Seq<char>>::empty(),
    {
        self.table = Vec::new();
        assert(self@ =~= Set::<Seq<char>>::empty());
    }
}

} // verus!
