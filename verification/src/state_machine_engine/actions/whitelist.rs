//! URL whitelist for the engine's `OpenUrl` action.
//!
//! Like the state machine's whitelist, but case folding is full Unicode
//! lower-casing (`str::to_lowercase`), a URL without a scheme is also tried
//! with `https://` in front, failures are reported as messages, a root path
//! `/` is kept, and a path pattern has at most one `*` that is honoured.
use vstd::prelude::*;

use crate::state_machine::actions::whitelist::{
    exact, slash, slash_star, star, wildcard, EntryView,
};
use crate::text::{
    chars_eq, chars_of, concat_chars, contains_char, ends_with, find_char, find_char_in,
    has_prefix, has_suffix, lemma_find_char, slice_chars, starts_with, string_of, trim,
    trim_chars, trim_end_char, trim_end_char_in,
};
use crate::url_pattern::{
    domain_matches, domain_matches_of, host_end, https_scheme, https_scheme_chars,
    split_at_slash, split_at_slash_of, strip_scheme, strip_scheme_of,
};

verus! {

// ---------------------------------------------------------------------------
// Specification

/// What `str::to_lowercase` gives for the characters `s`.
pub uninterp spec fn lowercase(s: Seq<char>) -> Seq<char>;

/// The message for an empty URL.
pub open spec fn empty_url_message() -> Seq<char> {
    "Empty URL"@
}

/// The message for a URL with no host.
pub open spec fn no_host_message() -> Seq<char> {
    "URL has no host"@
}

/// The prefix of the message for a URL that cannot be normalised.
pub open spec fn invalid_url_prefix() -> Seq<char> {
    "Invalid URL: "@
}

/// `url` split into host and path after trimming and dropping the scheme, or
/// the reason it cannot be.
pub open spec fn parse_url_spec(url: Seq<char>) -> Result<(Seq<char>, Seq<char>), Seq<char>> {
    let u = trim(url);
    let w = strip_scheme(u);
    if u.len() == 0 {
        Err(empty_url_message())
    } else if w.len() == 0 || host_end(w) == 0 {
        Err(no_host_message())
    } else {
        Ok(split_at_slash(w))
    }
}

/// Host and path of a lower-cased URL; a URL that does not parse is tried
/// again with `https://` in front.
pub open spec fn host_and_path(lowered: Seq<char>) -> Result<(Seq<char>, Seq<char>), Seq<char>> {
    match parse_url_spec(lowered) {
        Ok(hp) => Ok(hp),
        Err(_) => match parse_url_spec(https_scheme() + lowered) {
            Ok(hp) => Ok(hp),
            Err(e) => Err(invalid_url_prefix() + e),
        },
    }
}

/// The normal form of a URL: host followed by the path without trailing
/// slashes (a bare `/` is kept), or the reason there is none.
pub open spec fn normalize_url_spec(url: Seq<char>) -> Result<Seq<char>, Seq<char>> {
    normalize_lowered(lowercase(trim(url)))
}

/// The normal form of a URL already trimmed and lower-cased: what
/// `normalize_url_spec` does after lower-casing.
pub open spec fn normalize_lowered(lowered: Seq<char>) -> Result<Seq<char>, Seq<char>> {
    match host_and_path(lowered) {
        Err(e) => Err(e),
        Ok((host, path)) => Ok(
            host + (if path == slash() {
                slash()
            } else {
                trim_end_char(path, '/')
            }),
        ),
    }
}

/// How a (trimmed, lower-cased) `*` pattern is stored: scheme dropped and the
/// path, unless it is a bare `/`, without trailing slashes.
pub open spec fn normalize_wildcard(pattern: Seq<char>) -> Seq<char> {
    let w = strip_scheme(pattern);
    if find_char(w, '/') < 0 {
        w
    } else {
        let (host, path) = split_at_slash(w);
        host + (if path == slash() {
            slash()
        } else {
            trim_end_char(path, '/')
        })
    }
}

/// The entry that `add(pattern)` inserts, or the reason it fails.
pub open spec fn entry_for(pattern: Seq<char>) -> Result<EntryView, Seq<char>> {
    let p = lowercase(trim(pattern));
    if p.contains('*') {
        Ok(wildcard(normalize_wildcard(p)))
    } else {
        match normalize_url_spec(p) {
            Ok(n) => Ok(exact(n)),
            Err(e) => Err(e),
        }
    }
}

/// Path matching with the first `*` of the pattern: the text must start with
/// the part before it and end with the part after it, without the two
/// overlapping. When that first part ends in `/` and the text has no `/`,
/// the text may also be that part without its slash. (Lengths are counted in
/// characters; with both parts matched this agrees with counting bytes.)
pub open spec fn path_matches(pattern: Seq<char>, text: Seq<char>) -> bool {
    if !pattern.contains('*') {
        pattern == text
    } else {
        let star_pos = find_char(pattern, '*');
        let prefix = pattern.take(star_pos);
        let suffix = pattern.skip(star_pos + 1);
        let slashless = has_suffix(prefix, slash()) && !text.contains('/');
        let prefix_without_slash = prefix.drop_last();
        let prefix_ok = if slashless {
            has_prefix(text, prefix_without_slash) && (text.len() == prefix_without_slash.len()
                || has_prefix(text, prefix_without_slash + slash()))
        } else {
            has_prefix(text, prefix)
        };
        let used = if slashless {
            prefix_without_slash.len()
        } else {
            prefix.len()
        };
        prefix_ok && text.len() >= used + suffix.len() && (suffix.len() == 0 || has_suffix(
            text,
            suffix,
        ))
    }
}

/// Whether the normalised URL `text` matches the `*` pattern `pattern`.
pub open spec fn wildcard_matches(pattern: Seq<char>, text: Seq<char>) -> bool {
    let (pattern_domain, pattern_path) = split_at_slash(pattern);
    let (text_domain, text_path) = split_at_slash(text);
    if !domain_matches(pattern_domain, text_domain) {
        false
    } else if pattern_path.len() == 0 {
        text_path.len() == 0
    } else if text_path.len() == 0 && pattern_path != slash() && pattern_path != slash_star() {
        false
    } else {
        path_matches(pattern_path, text_path)
    }
}

/// Whether one entry allows the normalised URL `url`.
pub open spec fn entry_allows(entry: EntryView, url: Seq<char>) -> bool {
    entry.1 == star() || if entry.0 {
        wildcard_matches(entry.1, url)
    } else {
        entry.1 == url
    }
}

/// Whether some entry in `entries` allows the normalised URL `n`.
pub open spec fn some_entry_allows(entries: Set<EntryView>, n: Seq<char>) -> bool {
    exists|e: EntryView| entries.contains(e) && #[trigger] entry_allows(e, n)
}

/// What `is_allowed(url)` answers for a whitelist holding `entries`.
pub open spec fn allows(entries: Set<EntryView>, url: Seq<char>) -> Result<bool, Seq<char>> {
    match normalize_url_spec(url) {
        Err(e) => Err(e),
        Ok(n) => Ok(some_entry_allows(entries, n)),
    }
}

// ---------------------------------------------------------------------------
// Laws

/// Adding a pattern never takes away a URL that was allowed.
pub proof fn law_add_keeps_allowed(entries: Set<EntryView>, entry: EntryView, url: Seq<char>)
    requires
        allows(entries, url) == Ok::<bool, Seq<char>>(true),
    ensures
        allows(entries.insert(entry), url) == Ok::<bool, Seq<char>>(true),
{
    let n = normalize_url_spec(url)->Ok_0;
    let e = choose|e: EntryView| entries.contains(e) && #[trigger] entry_allows(e, n);
    assert(entries.insert(entry).contains(e));
}

/// A whitelist holding `*` allows every URL that can be normalised; a URL
/// that cannot gets the same error whatever the whitelist holds.
pub proof fn law_star_allows_every_url(entries: Set<EntryView>, url: Seq<char>)
    ensures
        allows(entries.insert(wildcard(star())), url) == match normalize_url_spec(url) {
            Ok(_) => Ok::<bool, Seq<char>>(true),
            Err(e) => Err(e),
        },
{
    if normalize_url_spec(url) is Ok {
        let n = normalize_url_spec(url)->Ok_0;
        assert(entries.insert(wildcard(star())).contains(wildcard(star())));
        assert(entry_allows(wildcard(star()), n));
    }
}

// ---------------------------------------------------------------------------
// Implementation

/// `s` lower-cased (`str::to_lowercase`).
#[verifier::external_body]
fn to_lowercase(s: &str) -> (r: String)
    ensures
        r@ == lowercase(s@),
{
    s.to_lowercase()
}

/// The characters of a message given as a literal.
fn message(s: &str) -> (r: Vec<char>)
    ensures
        r@ == s@,
{
    chars_of(s)
}

/// Split a URL into host and path, ignoring any scheme.
pub fn parse_url(url_str: &str) -> (r: Result<(String, String), String>)
    ensures
        match r {
            Ok((host, path)) => parse_url_spec(url_str@) == Ok::<(Seq<char>, Seq<char>), Seq<char>>((host@, path@)),
            Err(e) => parse_url_spec(url_str@) == Err::<(Seq<char>, Seq<char>), Seq<char>>(e@),
        },
{
    match parse_url_chars(&chars_of(url_str)) {
        Ok((host, path)) => Ok((string_of(&host), string_of(&path))),
        Err(e) => Err(string_of(&e)),
    }
}

/// `parse_url` on characters.
fn parse_url_chars(url: &Vec<char>) -> (r: Result<(Vec<char>, Vec<char>), Vec<char>>)
    ensures
        match r {
            Ok((host, path)) => parse_url_spec(url@) == Ok::<(Seq<char>, Seq<char>), Seq<char>>((host@, path@)),
            Err(e) => parse_url_spec(url@) == Err::<(Seq<char>, Seq<char>), Seq<char>>(e@),
        },
{
    let url = trim_chars(url);
    if url.len() == 0 {
        return Err(message("Empty URL"));
    }
    let without_protocol = strip_scheme_of(&url);
    if without_protocol.len() == 0 {
        return Err(message("URL has no host"));
    }
    proof {
        lemma_find_char(without_protocol@, '/');
    }
    let (host, path) = split_at_slash_of(&without_protocol);
    if host.len() == 0 {
        return Err(message("URL has no host"));
    }
    Ok((host, path))
}

/// A whitelist entry: a URL that must match exactly, or a pattern with `*`.
#[derive(Debug)]
pub enum WhitelistEntry {
    Exact(String),
    Wildcard(String),
}

impl View for WhitelistEntry {
    type V = EntryView;

    open spec fn view(&self) -> EntryView {
        match self {
            WhitelistEntry::Exact(s) => exact(s@),
            WhitelistEntry::Wildcard(s) => wildcard(s@),
        }
    }
}

impl WhitelistEntry {
    /// Whether the normalised URL `text` matches the `*` pattern `pattern`.
    pub fn matches_wildcard(pattern: &Vec<char>, text: &Vec<char>) -> (r: bool)
        ensures
            r == wildcard_matches(pattern@, text@),
    {
        let (pattern_domain, pattern_path) = split_at_slash_of(pattern);
        let (text_domain, text_path) = split_at_slash_of(text);
        if !Self::matches_domain_wildcard(&pattern_domain, &text_domain) {
            return false;
        }
        if pattern_path.len() == 0 {
            return text_path.len() == 0;
        }
        let root = vec!['/'];
        assert(root@ == slash());
        let root_any = vec!['/', '*'];
        assert(root_any@ == slash_star());
        if text_path.len() == 0 && !chars_eq(&pattern_path, &root) && !chars_eq(
            &pattern_path,
            &root_any,
        ) {
            return false;
        }
        Self::matches_path_wildcard(&pattern_path, &text_path)
    }

    /// Host matching with `*` labels (see `domain_matches`).
    pub fn matches_domain_wildcard(pattern: &Vec<char>, text: &Vec<char>) -> (r: bool)
        ensures
            r == domain_matches(pattern@, text@),
    {
        domain_matches_of(pattern, text)
    }

    /// Path matching with one `*` (see `path_matches`).
    pub fn matches_path_wildcard(pattern: &Vec<char>, text: &Vec<char>) -> (r: bool)
        ensures
            r == path_matches(pattern@, text@),
    {
        if !contains_char(pattern, '*') {
            return chars_eq(pattern, text);
        }
        proof {
            lemma_find_char(pattern@, '*');
        }
        let star_pos = match find_char_in(pattern, '*') {
            Some(p) => p,
            None => return false,
        };
        let pattern_len = pattern.len();
        let prefix = slice_chars(pattern, 0, star_pos);
        let suffix = slice_chars(pattern, star_pos + 1, pattern_len);
        let root = vec!['/'];
        assert(root@ == slash());
        let (prefix_matches, effective_prefix_len) = if ends_with(&prefix, &root)
            && !contains_char(text, '/') {
            let prefix_without_slash = slice_chars(&prefix, 0, prefix.len() - 1);
            assert(prefix_without_slash@ == prefix@.drop_last());
            let with_slash = concat_chars(&prefix_without_slash, &root);
            let matches = starts_with(text, &prefix_without_slash) && (text.len()
                == prefix_without_slash.len() || starts_with(text, &with_slash));
            (matches, prefix_without_slash.len())
        } else {
            (starts_with(text, &prefix), prefix.len())
        };
        if !prefix_matches {
            return false;
        }
        if text.len() < effective_prefix_len + suffix.len() {
            return false;
        }
        suffix.len() == 0 || ends_with(text, &suffix)
    }
}

/// A set of URL patterns; a URL is allowed when some entry allows it.
#[derive(Debug)]
pub struct Whitelist {
    entries: Vec<WhitelistEntry>,
}

impl View for Whitelist {
    type V = Set<EntryView>;

    closed spec fn view(&self) -> Set<EntryView> {
        self.entries@.map_values(|e: WhitelistEntry| e@).to_set()
    }
}

impl Whitelist {
    /// No entry occurs twice.
    #[verifier::type_invariant]
    spec fn no_duplicates(&self) -> bool {
        self.entries@.map_values(|e: WhitelistEntry| e@).no_duplicates()
    }

    /// An empty whitelist.
    pub fn new() -> (w: Self)
        ensures
            w@ == Set::<EntryView>::empty(),
    {
        let w = Whitelist { entries: Vec::new() };
        assert(w@ =~= Set::<EntryView>::empty());
        w
    }

    /// Host and path of a lower-cased URL, retried with `https://` in front.
    fn host_and_path_of(lowered: &Vec<char>) -> (r: Result<(Vec<char>, Vec<char>), Vec<char>>)
        ensures
            match r {
                Ok((host, path)) => host_and_path(lowered@) == Ok::<(Seq<char>, Seq<char>), Seq<char>>((host@, path@)),
                Err(e) => host_and_path(lowered@) == Err::<(Seq<char>, Seq<char>), Seq<char>>(e@),
            },
    {
        match parse_url_chars(lowered) {
            Ok(hp) => Ok(hp),
            Err(_) => {
                let with_scheme = concat_chars(&https_scheme_chars(), lowered);
                match parse_url_chars(&with_scheme) {
                    Ok(hp) => Ok(hp),
                    Err(e) => Err(concat_chars(&message("Invalid URL: "), &e)),
                }
            },
        }
    }

    /// Normalised form of `url` on characters.
    fn normalize_chars(url: &Vec<char>) -> (r: Result<Vec<char>, Vec<char>>)
        ensures
            match r {
                Ok(n) => normalize_url_spec(url@) == Ok::<Seq<char>, Seq<char>>(n@),
                Err(e) => normalize_url_spec(url@) == Err::<Seq<char>, Seq<char>>(e@),
            },
    {
        let trimmed = trim_chars(url);
        let lowered = chars_of(to_lowercase(string_of(&trimmed).as_str()).as_str());
        Self::normalize_lowered_chars(&lowered)
    }

    /// Normal form of a trimmed, lower-cased URL on characters.
    fn normalize_lowered_chars(lowered: &Vec<char>) -> (r: Result<Vec<char>, Vec<char>>)
        ensures
            match r {
                Ok(n) => normalize_lowered(lowered@) == Ok::<Seq<char>, Seq<char>>(n@),
                Err(e) => normalize_lowered(lowered@) == Err::<Seq<char>, Seq<char>>(e@),
            },
    {
        let (host, path) = match Self::host_and_path_of(lowered) {
            Ok(hp) => hp,
            Err(e) => return Err(e),
        };
        let root = vec!['/'];
        assert(root@ == slash());
        let path = if chars_eq(&path, &root) {
            root
        } else {
            trim_end_char_in(&path, '/')
        };
        Ok(concat_chars(&host, &path))
    }

    /// Lowercase `host` + `path`, scheme and trailing slashes stripped.
    pub fn normalize_url(url: &str) -> (r: Result<String, String>)
        ensures
            match r {
                Ok(n) => normalize_url_spec(url@) == Ok::<Seq<char>, Seq<char>>(n@),
                Err(e) => normalize_url_spec(url@) == Err::<Seq<char>, Seq<char>>(e@),
            },
    {
        match Self::normalize_chars(&chars_of(url)) {
            Ok(n) => Ok(string_of(&n)),
            Err(e) => Err(string_of(&e)),
        }
    }

    /// The normal form of a URL that is already trimmed and lower-cased (see
    /// `normalize_lowered`): `normalize_url` is this after lower-casing.
    pub fn normalize_lowered_url(lowered: &str) -> (r: Result<String, String>)
        ensures
            match r {
                Ok(n) => normalize_lowered(lowered@) == Ok::<Seq<char>, Seq<char>>(n@),
                Err(e) => normalize_lowered(lowered@) == Err::<Seq<char>, Seq<char>>(e@),
            },
    {
        match Self::normalize_lowered_chars(&chars_of(lowered)) {
            Ok(n) => Ok(string_of(&n)),
            Err(e) => Err(string_of(&e)),
        }
    }

    /// How a trimmed, lower-cased `*` pattern is stored.
    fn normalize_wildcard_of(pattern: &Vec<char>) -> (r: Vec<char>)
        ensures
            r@ == normalize_wildcard(pattern@),
    {
        let without_protocol = strip_scheme_of(pattern);
        if contains_char(&without_protocol, '/') {
            let (host, path) = split_at_slash_of(&without_protocol);
            let root = vec!['/'];
            assert(root@ == slash());
            let path = if chars_eq(&path, &root) {
                root
            } else {
                trim_end_char_in(&path, '/')
            };
            concat_chars(&host, &path)
        } else {
            without_protocol
        }
    }

    /// Inserts `entry` unless an equal entry is already present.
    fn insert(&mut self, entry: WhitelistEntry)
        ensures
            final(self)@ == old(self)@.insert(entry@),
    {
        proof {
            use_type_invariant(&*self);
        }
        let ghost old_views = self.entries@.map_values(|e: WhitelistEntry| e@);
        let entry_chars = match &entry {
            WhitelistEntry::Exact(s) => chars_of(s.as_str()),
            WhitelistEntry::Wildcard(s) => chars_of(s.as_str()),
        };
        let entry_is_wildcard = match &entry {
            WhitelistEntry::Exact(_) => false,
            WhitelistEntry::Wildcard(_) => true,
        };
        for k in 0..self.entries.len()
            invariant
                old_views == self.entries@.map_values(|e: WhitelistEntry| e@),
                entry@ == (entry_is_wildcard, entry_chars@),
                forall|j: int| 0 <= j < k ==> old_views[j] != entry@,
        {
            let (is_wildcard, text) = match &self.entries[k] {
                WhitelistEntry::Exact(s) => (false, chars_of(s.as_str())),
                WhitelistEntry::Wildcard(s) => (true, chars_of(s.as_str())),
            };
            assert(old_views[k as int] == (is_wildcard, text@));
            if is_wildcard == entry_is_wildcard && chars_eq(&text, &entry_chars) {
                assert(old_views.contains(entry@));
                assert(self@ =~= self@.insert(entry@));
                return;
            }
        }
        let mut entries: Vec<WhitelistEntry> = Vec::new();
        std::mem::swap(&mut entries, &mut self.entries);
        entries.push(entry);
        proof {
            let new_views = entries@.map_values(|e: WhitelistEntry| e@);
            assert(new_views == old_views.push(entry@));
            assert(!old_views.contains(entry@));
            assert(new_views.no_duplicates());
        }
        self.entries = entries;
        proof {
            let new_views = self.entries@.map_values(|e: WhitelistEntry| e@);
            assert(new_views == old_views.push(entry@));
            assert forall|x: EntryView| #[trigger] new_views.to_set().contains(x)
                == old_views.to_set().insert(entry@).contains(x) by {
                if new_views.contains(x) {
                    let j = choose|j: int| 0 <= j < new_views.len() && new_views[j] == x;
                    if j < old_views.len() {
                        assert(old_views[j] == x);
                    }
                }
                if old_views.contains(x) {
                    let j = choose|j: int| 0 <= j < old_views.len() && old_views[j] == x;
                    assert(new_views[j] == x);
                }
                if x == entry@ {
                    assert(new_views[old_views.len() as int] == x);
                }
            }
            assert(new_views.to_set() =~= old_views.to_set().insert(entry@));
        }
    }

    /// Add a pattern; a pattern without `*` must be a URL that normalises.
    pub fn add(&mut self, pattern: &str) -> (r: Result<(), String>)
        ensures
            match entry_for(pattern@) {
                Ok(e) => r is Ok && final(self)@ == old(self)@.insert(e),
                Err(m) => r is Err && r->Err_0@ == m && final(self)@ == old(self)@,
            },
    {
        let trimmed = trim_chars(&chars_of(pattern));
        let pattern = chars_of(to_lowercase(string_of(&trimmed).as_str()).as_str());
        if contains_char(&pattern, '*') {
            let normalized = Self::normalize_wildcard_of(&pattern);
            self.insert(WhitelistEntry::Wildcard(string_of(&normalized)));
        } else {
            let normalized = match Self::normalize_chars(&pattern) {
                Ok(n) => n,
                Err(e) => return Err(string_of(&e)),
            };
            self.insert(WhitelistEntry::Exact(string_of(&normalized)));
        }
        Ok(())
    }

    /// Whether one stored entry allows the normalised URL `url`.
    fn entry_allows_url(entry: &WhitelistEntry, url: &Vec<char>) -> (r: bool)
        ensures
            r == entry_allows(entry@, url@),
    {
        let star_chars = vec!['*'];
        assert(star_chars@ == star());
        match entry {
            WhitelistEntry::Exact(pattern) => {
                let p = chars_of(pattern.as_str());
                chars_eq(&p, &star_chars) || chars_eq(&p, url)
            },
            WhitelistEntry::Wildcard(pattern) => {
                let p = chars_of(pattern.as_str());
                chars_eq(&p, &star_chars) || WhitelistEntry::matches_wildcard(&p, url)
            },
        }
    }

    /// Whether `url_str` is allowed; an error when it does not normalise.
    pub fn is_allowed(&self, url_str: &str) -> (r: Result<bool, String>)
        ensures
            match allows(self@, url_str@) {
                Ok(b) => r == Ok::<bool, String>(b),
                Err(m) => r is Err && r->Err_0@ == m,
            },
    {
        let normalized_url = match Self::normalize_chars(&chars_of(url_str)) {
            Ok(n) => n,
            Err(e) => return Err(string_of(&e)),
        };
        let ghost views = self.entries@.map_values(|e: WhitelistEntry| e@);
        for k in 0..self.entries.len()
            invariant
                views == self.entries@.map_values(|e: WhitelistEntry| e@),
                normalize_url_spec(url_str@) == Ok::<Seq<char>, Seq<char>>(normalized_url@),
                forall|j: int| 0 <= j < k ==> !entry_allows(#[trigger] views[j], normalized_url@),
        {
            if Self::entry_allows_url(&self.entries[k], &normalized_url) {
                assert(views[k as int] == self.entries@[k as int]@);
                assert(views.to_set().contains(views[k as int]));
                assert(self@.contains(views[k as int]));
                assert(entry_allows(views[k as int], normalized_url@));
                assert(some_entry_allows(self@, normalized_url@));
                return Ok(true);
            }
        }
        assert forall|e: EntryView| self@.contains(e) implies !#[trigger] entry_allows(
            e,
            normalized_url@,
        ) by {
            let j = choose|j: int| 0 <= j < views.len() && views[j] == e;
            assert(!entry_allows(views[j], normalized_url@));
        }
        Ok(false)
    }
}

impl Default for Whitelist {
    fn default() -> (w: Self)
        ensures
            w@ == Set::<EntryView>::empty(),
    {
        Self::new()
    }
}

} // verus!
