//! URL whitelist for the `OpenUrl` action: exact URLs and `*` patterns.
//!
//! URLs are compared after normalisation: trimmed, ASCII-lower-cased, scheme
//! dropped, and without trailing slashes on the path (a bare `/` path is the
//! same as none). A URL with no host is never allowed.
use vstd::prelude::*;

use crate::text::{
    leading_ws, lemma_find_char_at, lemma_find_char_none, lemma_leading_ws, lemma_leading_ws_bound,
    lemma_trailing_count_bound, lemma_trailing_ws, lemma_trailing_ws_bound, lemma_trim_idempotent, chars_eq, chars_of, concat_chars, contains_char, count_char, count_char_in, ends_with,
    ends_with_char, find_char, find_seq, find_seq_in, has_prefix, has_suffix, lemma_find_char,
    lemma_find_seq, slice_chars, split_char, split_char_in, string_of, trim, trim_chars,
    trailing_ws, trim_end_char, trim_end_char_in,
};
use crate::url_pattern::{
    http_scheme, https_scheme, lemma_lower_idempotent, lemma_trim_lower, ascii_lower, ascii_lowercase, domain_matches, domain_matches_of, host_end, split_at_slash,
    split_at_slash_of, strip_scheme, strip_scheme_of,
};

verus! {

// ---------------------------------------------------------------------------
// Specification

/// A whitelist entry as a value: whether it is a `*` pattern, and its text.
pub type EntryView = (bool, Seq<char>);

/// The entry for a URL that must match exactly.
pub open spec fn exact(s: Seq<char>) -> EntryView {
    (false, s)
}

/// The entry for a pattern with `*`.
pub open spec fn wildcard(s: Seq<char>) -> EntryView {
    (true, s)
}

/// `"*"`: the entry that allows every URL.
pub open spec fn star() -> Seq<char> {
    seq!['*']
}

/// `"/"`.
pub open spec fn slash() -> Seq<char> {
    seq!['/']
}

/// `"/*"`: a path pattern that covers the root and every path.
pub open spec fn slash_star() -> Seq<char> {
    seq!['/', '*']
}

/// `"/*/"`: a path pattern whose last `*` stands for exactly one segment.
pub open spec fn slash_star_slash() -> Seq<char> {
    seq!['/', '*', '/']
}

/// `"*/"`.
pub open spec fn star_slash() -> Seq<char> {
    seq!['*', '/']
}

/// `url` split into host and path, after trimming and dropping the scheme;
/// `None` when there is no host.
pub open spec fn parse_url_spec(url: Seq<char>) -> Option<(Seq<char>, Seq<char>)> {
    let w = strip_scheme(trim(url));
    if w.len() == 0 || host_end(w) == 0 {
        None
    } else {
        Some(split_at_slash(w))
    }
}

/// The normal form of a URL: lower-cased host followed by the path without
/// trailing slashes; `None` when the URL has no host.
pub open spec fn normalize_url_spec(url: Seq<char>) -> Option<Seq<char>> {
    match parse_url_spec(ascii_lower(trim(url))) {
        None => None,
        Some((host, path)) => Some(
            host + (if path == slash() {
                Seq::empty()
            } else {
                trim_end_char(path, '/')
            }),
        ),
    }
}

/// How the path of a `*` pattern is stored: a bare `/` is dropped, `/*` and
/// paths that end in `/*/` or in a `/` not preceded by `*` are kept, and any
/// other path loses its trailing slashes.
pub open spec fn wildcard_path(path: Seq<char>) -> Seq<char> {
    if path == slash() {
        Seq::empty()
    } else if path == slash_star() {
        slash_star()
    } else if has_suffix(path, slash_star_slash()) || (has_suffix(path, slash()) && !has_suffix(
        path,
        star_slash(),
    )) {
        path
    } else {
        trim_end_char(path, '/')
    }
}

/// How a (trimmed, lower-cased) `*` pattern is stored.
pub open spec fn normalize_wildcard(pattern: Seq<char>) -> Seq<char> {
    let w = strip_scheme(pattern);
    if find_char(w, '/') < 0 {
        w
    } else {
        split_at_slash(w).0 + wildcard_path(split_at_slash(w).1)
    }
}

/// The entry that `add(pattern)` inserts, if any.
pub open spec fn entry_for(pattern: Seq<char>) -> Option<EntryView> {
    let p = ascii_lower(trim(pattern));
    if p.contains('*') {
        Some(wildcard(normalize_wildcard(p)))
    } else {
        match normalize_url_spec(p) {
            Some(n) => Some(exact(n)),
            None => None,
        }
    }
}

/// Path matching for `*` patterns. The pattern is cut at each `*` into parts;
/// the first part must start the text, each further part is looked up at its
/// first occurrence after the previous one, and the last part must end the
/// text. A trailing `*` accepts the rest, except after `/*/`, where the rest
/// must be exactly one segment followed by `/`.
pub open spec fn path_matches(pattern: Seq<char>, text: Seq<char>) -> bool {
    if !pattern.contains('*') {
        pattern == text
    } else if pattern == slash_star() {
        true
    } else {
        let parts = split_char(pattern, '*');
        if parts.len() == 1 && parts[0].len() == 0 {
            true
        } else {
            parts_match(parts, 0, text, 0, has_suffix(pattern, slash_star_slash()))
        }
    }
}

/// Whether `parts[i..]` match `text` from position `pos` on (see `path_matches`).
pub open spec fn parts_match(
    parts: Seq<Seq<char>>,
    i: int,
    text: Seq<char>,
    pos: int,
    single_segment: bool,
) -> bool
    decreases parts.len() - i,
{
    if i < 0 || i >= parts.len() {
        true
    } else if parts[i].len() == 0 {
        if i == 0 {
            parts_match(parts, i + 1, text, pos, single_segment)
        } else if i == parts.len() - 1 {
            if single_segment {
                count_char(text.skip(pos), '/') == 1 && has_suffix(text.skip(pos), slash())
            } else {
                true
            }
        } else {
            parts_match(parts, i + 1, text, pos, single_segment)
        }
    } else if parts[i] == slash() && i == 0 && parts.len() == 2 && parts[1].len() == 0 {
        true
    } else {
        let found = find_seq(text.skip(pos), parts[i]);
        if found < 0 {
            false
        } else if i == 0 && found != 0 {
            false
        } else if i == parts.len() - 1 && pos + found + parts[i].len() != text.len() {
            false
        } else {
            parts_match(parts, i + 1, text, pos + found + parts[i].len(), single_segment)
        }
    }
}

/// Whether the normalised URL `text` matches the `*` pattern `pattern`.
pub open spec fn wildcard_matches(pattern: Seq<char>, text: Seq<char>) -> bool {
    let (pattern_domain, pattern_path) = split_at_slash(pattern);
    let (text_domain, text_path) = split_at_slash(text);
    if !domain_matches(pattern_domain, text_domain) {
        false
    } else if pattern_path.len() == 0 {
        text_path.len() == 0
    } else if pattern_path == slash_star() {
        true
    } else if text_path.len() == 0 && pattern_path != slash() {
        false
    } else {
        path_matches(pattern_path, text_path)
    }
}

/// Whether one entry allows the normalised URL `url`.
pub open spec fn entry_allows(entry: EntryView, url: Seq<char>) -> bool {
    entry.1 == star() || if entry.0 {
        wildcard_matches(entry.1, url)
    } else {
        entry.1 == url
    }
}

/// Whether some entry in `entries` allows the normalised URL `n`.
pub open spec fn some_entry_allows(entries: Set<EntryView>, n: Seq<char>) -> bool {
    exists|e: EntryView| entries.contains(e) && #[trigger] entry_allows(e, n)
}

/// Whether a whitelist holding `entries` allows `url`.
pub open spec fn allows(entries: Set<EntryView>, url: Seq<char>) -> bool {
    match normalize_url_spec(url) {
        None => false,
        Some(n) => some_entry_allows(entries, n),
    }
}

// ---------------------------------------------------------------------------
// Laws

/// Normalisation already ignores case and surrounding white space.
pub proof fn lemma_normalize_folds(url: Seq<char>)
    ensures
        normalize_url_spec(ascii_lower(trim(url))) == normalize_url_spec(url),
{
    lemma_trim_lower(trim(url));
    lemma_trim_idempotent(url);
    lemma_lower_idempotent(trim(url));
}

/// A lower-cased, trimmed text holds `*` only where the text it came from did.
proof fn lemma_folding_keeps_star(url: Seq<char>)
    requires
        !url.contains('*'),
    ensures
        !ascii_lower(trim(url)).contains('*'),
{
    let i = leading_ws(url);
    lemma_leading_ws_bound(url);
    let t = url.skip(i as int);
    lemma_trailing_ws_bound(t);
    let p = ascii_lower(trim(url));
    if p.contains('*') {
        let k = choose|k: int| 0 <= k < p.len() && p[k] == '*';
        assert(trim(url)[k] == url[k + i]);
        assert(url.contains('*'));
    }
}

/// Whether a URL is allowed depends neither on its case nor on white space
/// around it.
pub proof fn law_case_and_space_insensitive(entries: Set<EntryView>, url: Seq<char>)
    ensures
        allows(entries, ascii_lower(trim(url))) == allows(entries, url),
{
    lemma_normalize_folds(url);
}

/// Adding a pattern never takes away a URL that was allowed.
pub proof fn law_add_keeps_allowed(entries: Set<EntryView>, entry: EntryView, url: Seq<char>)
    requires
        allows(entries, url),
    ensures
        allows(entries.insert(entry), url),
{
    let n = normalize_url_spec(url)->0;
    let e = choose|e: EntryView| entries.contains(e) && #[trigger] entry_allows(e, n);
    assert(entries.insert(entry).contains(e));
}

/// A URL without `*` that has a host is stored as its normal form, and once
/// added it is allowed.
pub proof fn law_added_url_is_allowed(entries: Set<EntryView>, url: Seq<char>)
    requires
        !url.contains('*'),
        normalize_url_spec(url) is Some,
    ensures
        entry_for(url) == Some(exact(normalize_url_spec(url)->0)),
        allows(entries.insert(exact(normalize_url_spec(url)->0)), url),
{
    lemma_folding_keeps_star(url);
    lemma_normalize_folds(url);
    let n = normalize_url_spec(url)->0;
    assert(entries.insert(exact(n)).contains(exact(n)));
    assert(entry_allows(exact(n), n));
}

/// A pattern without `*` that has no host is ignored: `add` stores nothing
/// for it, so the whitelist, and every answer of `is_allowed`, stay as they
/// were.
pub proof fn law_hostless_pattern_is_ignored(entries: Set<EntryView>, pattern: Seq<char>, url: Seq<char>)
    requires
        !pattern.contains('*'),
        normalize_url_spec(pattern) is None,
    ensures
        entry_for(pattern) is None,
        allows(
            match entry_for(pattern) {
                Some(e) => entries.insert(e),
                None => entries,
            },
            url,
        ) == allows(entries, url),
{
    let u = pattern.skip(leading_ws(pattern) as int);
    let t = trim(pattern);
    let p = ascii_lower(t);
    lemma_leading_ws_bound(pattern);
    lemma_trailing_ws_bound(u);
    assert(t == u.take(u.len() - trailing_ws(u)));
    assert forall|i: int| 0 <= i < p.len() implies p[i] != '*' by {
        let k = leading_ws(pattern) as int + i;
        assert(t[i] == u[i]);
        assert(u[i] == pattern[k]);
        assert(pattern[k] != '*');
    }
    assert(!p.contains('*'));
    lemma_normalize_folds(pattern);
}

/// The host part of a normalised URL is never empty.
proof fn lemma_normal_form_has_host(url: Seq<char>)
    requires
        normalize_url_spec(url) is Some,
    ensures
        split_at_slash(normalize_url_spec(url)->0).0.len() > 0,
{
    let w = strip_scheme(trim(ascii_lower(trim(url))));
    let he = host_end(w);
    let host = w.take(he);
    let path = w.skip(he);
    lemma_find_char(w, '/');
    assert(forall|k: int| 0 <= k < host.len() ==> host[k] == w[k]);
    let q = if path == slash() {
        Seq::<char>::empty()
    } else {
        trim_end_char(path, '/')
    };
    let n = host + q;
    assert(normalize_url_spec(url)->0 == n);
    lemma_trailing_count_bound(path, '/');
    if q.len() > 0 {
        assert(path.len() > 0);
        assert(path[0] == w[he]);
        assert(q[0] == path[0]);
        assert(n[host.len() as int] == '/');
        assert forall|k: int| 0 <= k < host.len() implies n[k] != '/' by {
            assert(n[k] == host[k]);
        }
        lemma_find_char_at(n, '/', host.len() as int);
    } else {
        assert(n =~= host);
        lemma_find_char_none(n, '/');
    }
    assert(split_at_slash(n).0 =~= host);
}

/// A `*` pattern with no host, such as `/*`, is stored but allows no URL:
/// adding it leaves every answer of `is_allowed` as it was.
pub proof fn law_hostless_star_pattern_allows_nothing(entries: Set<EntryView>, url: Seq<char>)
    ensures
        entry_for(slash_star()) == Some(wildcard(slash_star())),
        allows(entries.insert(wildcard(slash_star())), url) == allows(entries, url),
{
    let s = slash_star();
    lemma_leading_ws(s, 0);
    assert(s.skip(0) =~= s);
    lemma_trailing_ws(s, 0);
    assert(s.take(2) =~= s);
    assert(trim(s) == s);
    assert(ascii_lower(s) =~= s);
    assert(s.contains('*'));
    assert(!has_prefix(s, https_scheme()));
    assert(!has_prefix(s, http_scheme()));
    lemma_find_char_at(s, '/', 0);
    assert(split_at_slash(s).0 =~= Seq::<char>::empty());
    assert(split_at_slash(s).1 =~= s);
    assert(normalize_wildcard(s) =~= s);
    if normalize_url_spec(url) is Some {
        let n = normalize_url_spec(url)->0;
        lemma_normal_form_has_host(url);
        assert(!Seq::<char>::empty().contains('*'));
        assert(!domain_matches(split_at_slash(s).0, split_at_slash(n).0));
        assert(s != star());
        assert(!entry_allows(wildcard(s), n));
        assert(some_entry_allows(entries.insert(wildcard(s)), n) == some_entry_allows(entries, n)) by {
            if some_entry_allows(entries.insert(wildcard(s)), n) {
                let e = choose|e: EntryView| entries.insert(wildcard(s)).contains(e) && #[trigger] entry_allows(e, n);
                assert(entries.contains(e));
            }
        }
    }
}

/// The pattern `*` is stored as itself, and a whitelist holding it allows
/// every URL that has a host.
pub proof fn law_star_allows_every_url(entries: Set<EntryView>, url: Seq<char>)
    ensures
        entry_for(star()) == Some(wildcard(star())),
        allows(entries.insert(wildcard(star())), url) == (normalize_url_spec(url) is Some),
{
    let s = star();
    lemma_leading_ws(s, 0);
    assert(s.skip(0) =~= s);
    lemma_trailing_ws(s, 0);
    assert(s.take(1) =~= s);
    assert(trim(s) == s);
    assert(ascii_lower(s) =~= s);
    assert(s.contains('*'));
    assert(!has_prefix(s, https_scheme()));
    assert(!has_prefix(s, http_scheme()));
    lemma_find_char_none(s, '/');
    if normalize_url_spec(url) is Some {
        let n = normalize_url_spec(url)->0;
        assert(entries.insert(wildcard(s)).contains(wildcard(s)));
        assert(entry_allows(wildcard(s), n));
    }
}

/// Folding a pattern (trimming it and lower-casing it) twice is folding it
/// once.
proof fn lemma_fold_idempotent(pattern: Seq<char>)
    ensures
        trim(ascii_lower(trim(pattern))) == ascii_lower(trim(pattern)),
        ascii_lower(trim(ascii_lower(trim(pattern)))) == ascii_lower(trim(pattern)),
{
    lemma_trim_lower(trim(pattern));
    lemma_trim_idempotent(pattern);
    lemma_lower_idempotent(trim(pattern));
}

/// The path a `*` pattern keeps is empty or starts where the pattern's path
/// does.
proof fn lemma_wildcard_path_start(path: Seq<char>)
    requires
        path.len() > 0,
    ensures
        wildcard_path(path).len() == 0 || wildcard_path(path)[0] == path[0],
{
    lemma_trailing_count_bound(path, '/');
}

/// An entry whose text is empty or starts with `/` has an empty host part,
/// and allows no normalised URL.
proof fn lemma_hostless_entry_allows_nothing(text: Seq<char>, url: Seq<char>)
    requires
        text.len() == 0 || text[0] == '/',
        normalize_url_spec(url) is Some,
    ensures
        !entry_allows(wildcard(text), normalize_url_spec(url)->0),
{
    let n = normalize_url_spec(url)->0;
    if text.len() > 0 {
        lemma_find_char_at(text, '/', 0);
    } else {
        lemma_find_char_none(text, '/');
    }
    assert(split_at_slash(text).0 =~= Seq::<char>::empty());
    lemma_normal_form_has_host(url);
    assert(!Seq::<char>::empty().contains('*'));
    assert(!domain_matches(split_at_slash(text).0, split_at_slash(n).0));
    assert(text != star()) by {
        if text.len() > 0 {
            assert(star()[0] == '*');
        }
    }
}

/// A pattern with no host to parse changes no answer of `is_allowed`:
/// without `*` nothing is stored for it; with `*` (as in `/*`) the pattern is
/// stored with an empty host part, which matches no host.
pub proof fn law_hostless_pattern_changes_nothing(entries: Set<EntryView>, pattern: Seq<char>, url: Seq<char>)
    requires
        parse_url_spec(ascii_lower(trim(pattern))) is None,
    ensures
        allows(
            match entry_for(pattern) {
                Some(e) => entries.insert(e),
                None => entries,
            },
            url,
        ) == allows(entries, url),
{
    let p = ascii_lower(trim(pattern));
    lemma_fold_idempotent(pattern);
    if !p.contains('*') {
        assert(normalize_url_spec(p) is None);
        assert(entry_for(pattern) is None);
    } else {
        let w = strip_scheme(p);
        assert(strip_scheme(trim(p)) == w);
        lemma_find_char(w, '/');
        let stored = normalize_wildcard(p);
        if find_char(w, '/') < 0 {
            assert(w.len() == 0);
            assert(stored == w);
        } else {
            assert(host_end(w) == 0);
            assert(split_at_slash(w).0 =~= Seq::<char>::empty());
            assert(split_at_slash(w).1 =~= w);
            lemma_wildcard_path_start(w);
            assert(stored =~= wildcard_path(w));
        }
        assert(entry_for(pattern) == Some(wildcard(stored)));
        if normalize_url_spec(url) is Some {
            let n = normalize_url_spec(url)->0;
            lemma_hostless_entry_allows_nothing(stored, url);
            assert(some_entry_allows(entries.insert(wildcard(stored)), n) == some_entry_allows(entries, n)) by {
                if some_entry_allows(entries.insert(wildcard(stored)), n) {
                    let e = choose|e: EntryView| entries.insert(wildcard(stored)).contains(e) && #[trigger] entry_allows(e, n);
                    assert(entries.contains(e));
                }
            }
        }
    }
}

/// A whitelist holding the `*` entry, which `add("*")` stores and no later
/// `add` takes away, allows every URL that has a host, whatever else it
/// holds.
pub proof fn law_star_entry_allows_every_url(entries: Set<EntryView>, url: Seq<char>)
    requires
        entries.contains(wildcard(star())),
    ensures
        allows(entries, url) == (normalize_url_spec(url) is Some),
{
    law_star_allows_every_url(entries, url);
    assert(entries.insert(wildcard(star())) =~= entries);
}

/// A host pattern followed by `/*` allows the root and every path of the
/// hosts it matches.
pub proof fn law_slash_star_covers_all_paths(domain: Seq<char>, url: Seq<char>)
    requires
        !domain.contains('/'),
    ensures
        wildcard_matches(domain + slash_star(), url) == domain_matches(domain, split_at_slash(url).0),
{
    let p = domain + slash_star();
    assert(p[domain.len() as int] == '/');
    assert forall|k: int| 0 <= k < domain.len() implies p[k] != '/' by {
        assert(p[k] == domain[k]);
    }
    lemma_find_char_at(p, '/', domain.len() as int);
    assert(split_at_slash(p).0 =~= domain);
    assert(split_at_slash(p).1 =~= slash_star());
}

/// A host pattern without a path allows only the root of the hosts it
/// matches.
pub proof fn law_host_pattern_allows_root_only(domain: Seq<char>, url: Seq<char>)
    requires
        !domain.contains('/'),
    ensures
        wildcard_matches(domain, url) == (domain_matches(domain, split_at_slash(url).0)
            && split_at_slash(url).1.len() == 0),
{
    lemma_find_char_none(domain, '/');
    assert(split_at_slash(domain).0 =~= domain);
    assert(split_at_slash(domain).1.len() == 0);
}

// ---------------------------------------------------------------------------
// Implementation

/// Split a URL into `(host, path)`, ignoring any scheme. `None` when there is
/// no host to speak of.
pub fn parse_url(url_str: &str) -> (r: Option<(String, String)>)
    ensures
        match r {
            Some((host, path)) => parse_url_spec(url_str@) == Some((host@, path@)),
            None => parse_url_spec(url_str@) is None,
        },
{
    match parse_url_chars(&chars_of(url_str)) {
        Some((host, path)) => Some((string_of(&host), string_of(&path))),
        None => None,
    }
}

/// `parse_url` on characters.
fn parse_url_chars(url: &Vec<char>) -> (r: Option<(Vec<char>, Vec<char>)>)
    ensures
        match r {
            Some((host, path)) => parse_url_spec(url@) == Some((host@, path@)),
            None => parse_url_spec(url@) is None,
        },
{
    let trimmed = trim_chars(url);
    let without_protocol = strip_scheme_of(&trimmed);
    if without_protocol.len() == 0 {
        return None;
    }
    proof {
        lemma_find_char(without_protocol@, '/');
    }
    let (host, path) = split_at_slash_of(&without_protocol);
    if host.len() == 0 {
        return None;
    }
    Some((host, path))
}

/// A whitelist entry: a URL that must match exactly, or a pattern with `*`.
#[derive(Debug)]
pub enum WhitelistEntry {
    Exact(String),
    Wildcard(String),
}

impl View for WhitelistEntry {
    type V = EntryView;

    open spec fn view(&self) -> EntryView {
        match self {
            WhitelistEntry::Exact(s) => exact(s@),
            WhitelistEntry::Wildcard(s) => wildcard(s@),
        }
    }
}

impl WhitelistEntry {
    /// Whether the normalised URL `text` matches the `*` pattern `pattern`.
    pub fn matches_wildcard(pattern: &Vec<char>, text: &Vec<char>) -> (r: bool)
        ensures
            r == wildcard_matches(pattern@, text@),
    {
        let (pattern_domain, pattern_path) = split_at_slash_of(pattern);
        let (text_domain, text_path) = split_at_slash_of(text);
        if !Self::matches_domain_wildcard(&pattern_domain, &text_domain) {
            return false;
        }
        if pattern_path.len() == 0 {
            return text_path.len() == 0;
        }
        let root_any = vec!['/', '*'];
        assert(root_any@ == slash_star());
        if chars_eq(&pattern_path, &root_any) {
            return true;
        }
        let root = vec!['/'];
        assert(root@ == slash());
        if text_path.len() == 0 && !chars_eq(&pattern_path, &root) {
            return false;
        }
        Self::matches_path_wildcard(&pattern_path, &text_path)
    }

    /// Host matching with `*` labels (see `domain_matches`).
    pub fn matches_domain_wildcard(pattern: &Vec<char>, text: &Vec<char>) -> (r: bool)
        ensures
            r == domain_matches(pattern@, text@),
    {
        domain_matches_of(pattern, text)
    }

    /// Path matching with `*` (see `path_matches`).
    pub fn matches_path_wildcard(pattern: &Vec<char>, text: &Vec<char>) -> (r: bool)
        ensures
            r == path_matches(pattern@, text@),
    {
        if !contains_char(pattern, '*') {
            return chars_eq(pattern, text);
        }
        let root_any = vec!['/', '*'];
        assert(root_any@ == slash_star());
        if chars_eq(pattern, &root_any) {
            return true;
        }
        let single_tail = vec!['/', '*', '/'];
        assert(single_tail@ == slash_star_slash());
        let expects_single_segment = ends_with(pattern, &single_tail);
        let parts = split_char_in(pattern, '*');
        if parts.len() == 1 && parts[0].len() == 0 {
            return true;
        }
        let ghost sparts = split_char(pattern@, '*');
        let root = vec!['/'];
        assert(root@ == slash());
        let mut text_pos: usize = 0;
        for i in 0..parts.len()
            invariant
                parts@.len() == sparts.len(),
                forall|k: int| 0 <= k < parts@.len() ==> #[trigger] parts@[k]@ == sparts[k],
                sparts == split_char(pattern@, '*'),
                root@ == slash(),
                text_pos <= text@.len(),
                path_matches(pattern@, text@) == parts_match(
                    sparts,
                    i as int,
                    text@,
                    text_pos as int,
                    expects_single_segment,
                ),
                pattern@.contains('*'),
                pattern@ != slash_star(),
                !(sparts.len() == 1 && sparts[0].len() == 0),
                expects_single_segment == has_suffix(pattern@, slash_star_slash()),
        {
            let part = &parts[i];
            if part.len() == 0 {
                if i != 0 && i == parts.len() - 1 {
                    if expects_single_segment {
                        let remaining = slice_chars(text, text_pos, text.len());
                        assert(remaining@ == text@.skip(text_pos as int));
                        return count_char_in(&remaining, '/') == 1 && ends_with_char(
                            &remaining,
                            '/',
                        );
                    } else {
                        return true;
                    }
                }
            } else {
                if chars_eq(part, &root) && i == 0 && parts.len() == 2 && parts[1].len() == 0 {
                    return true;
                }
                let remaining = slice_chars(text, text_pos, text.len());
                proof {
                    lemma_find_seq(remaining@, part@);
                }
                match find_seq_in(&remaining, part) {
                    Some(found_pos) => {
                        let absolute_pos = text_pos + found_pos;
                        if i == 0 && found_pos != 0 {
                            return false;
                        }
                        if i == parts.len() - 1 && absolute_pos + part.len() != text.len() {
                            return false;
                        }
                        proof {
                            assert(has_prefix(remaining@.skip(found_pos as int), part@));
                        }
                        text_pos = absolute_pos + part.len();
                    },
                    None => {
                        return false;
                    },
                }
            }
        }
        true
    }
}

/// A set of URL patterns; a URL is allowed when some entry allows it.
#[derive(Debug)]
pub struct Whitelist {
    entries: Vec<WhitelistEntry>,
}

impl View for Whitelist {
    type V = Set<EntryView>;

    closed spec fn view(&self) -> Set<EntryView> {
        self.entries@.map_values(|e: WhitelistEntry| e@).to_set()
    }
}

impl Whitelist {
    /// No entry occurs twice.
    #[verifier::type_invariant]
    spec fn no_duplicates(&self) -> bool {
        self.entries@.map_values(|e: WhitelistEntry| e@).no_duplicates()
    }

    /// An empty whitelist.
    pub fn new() -> (w: Self)
        ensures
            w@ == Set::<EntryView>::empty(),
    {
        let w = Whitelist { entries: Vec::new() };
        assert(w@ =~= Set::<EntryView>::empty());
        w
    }

    /// Lowercase `host` + `path`, scheme and trailing slash stripped.
    pub fn normalize_url(url: &str) -> (r: Option<String>)
        ensures
            match r {
                Some(s) => normalize_url_spec(url@) == Some(s@),
                None => normalize_url_spec(url@) is None,
            },
    {
        match Self::normalize_chars(&chars_of(url)) {
            Some(v) => Some(string_of(&v)),
            None => None,
        }
    }

    /// `normalize_url` on characters.
    fn normalize_chars(url: &Vec<char>) -> (r: Option<Vec<char>>)
        ensures
            match r {
                Some(s) => normalize_url_spec(url@) == Some(s@),
                None => normalize_url_spec(url@) is None,
            },
    {
        let lowered = ascii_lowercase(&trim_chars(url));
        let (host, path) = match parse_url_chars(&lowered) {
            Some(hp) => hp,
            None => return None,
        };
        let root = vec!['/'];
        assert(root@ == slash());
        let path = if chars_eq(&path, &root) {
            Vec::new()
        } else {
            trim_end_char_in(&path, '/')
        };
        Some(concat_chars(&host, &path))
    }

    /// How a `*` pattern's path is stored.
    fn wildcard_path_of(path: &Vec<char>) -> (r: Vec<char>)
        ensures
            r@ == wildcard_path(path@),
    {
        let root = vec!['/'];
        assert(root@ == slash());
        let root_any = vec!['/', '*'];
        assert(root_any@ == slash_star());
        let single_tail = vec!['/', '*', '/'];
        assert(single_tail@ == slash_star_slash());
        let star_tail = vec!['*', '/'];
        assert(star_tail@ == star_slash());
        if chars_eq(path, &root) {
            Vec::new()
        } else if chars_eq(path, &root_any) {
            root_any
        } else if ends_with(path, &single_tail) || (ends_with(path, &root) && !ends_with(
            path,
            &star_tail,
        )) {
            path.clone()
        } else {
            trim_end_char_in(path, '/')
        }
    }

    /// How a trimmed, lower-cased `*` pattern is stored.
    fn normalize_wildcard_of(pattern: &Vec<char>) -> (r: Vec<char>)
        ensures
            r@ == normalize_wildcard(pattern@),
    {
        let without_protocol = strip_scheme_of(pattern);
        if contains_char(&without_protocol, '/') {
            let (host, path) = split_at_slash_of(&without_protocol);
            concat_chars(&host, &Self::wildcard_path_of(&path))
        } else {
            without_protocol
        }
    }

    /// Inserts `entry` unless an equal entry is already present.
    fn insert(&mut self, entry: WhitelistEntry)
        ensures
            final(self)@ == old(self)@.insert(entry@),
    {
        proof {
            use_type_invariant(&*self);
        }
        let ghost old_views = self.entries@.map_values(|e: WhitelistEntry| e@);
        let entry_chars = match &entry {
            WhitelistEntry::Exact(s) => chars_of(s.as_str()),
            WhitelistEntry::Wildcard(s) => chars_of(s.as_str()),
        };
        let entry_is_wildcard = match &entry {
            WhitelistEntry::Exact(_) => false,
            WhitelistEntry::Wildcard(_) => true,
        };
        for k in 0..self.entries.len()
            invariant
                old_views == self.entries@.map_values(|e: WhitelistEntry| e@),
                entry@ == (entry_is_wildcard, entry_chars@),
                forall|j: int| 0 <= j < k ==> old_views[j] != entry@,
        {
            let (is_wildcard, text) = match &self.entries[k] {
                WhitelistEntry::Exact(s) => (false, chars_of(s.as_str())),
                WhitelistEntry::Wildcard(s) => (true, chars_of(s.as_str())),
            };
            assert(old_views[k as int] == (is_wildcard, text@));
            if is_wildcard == entry_is_wildcard && chars_eq(&text, &entry_chars) {
                assert(old_views.contains(entry@));
                assert(self@ =~= self@.insert(entry@));
                return;
            }
        }
        let mut entries: Vec<WhitelistEntry> = Vec::new();
        std::mem::swap(&mut entries, &mut self.entries);
        entries.push(entry);
        proof {
            let new_views = entries@.map_values(|e: WhitelistEntry| e@);
            assert(new_views == old_views.push(entry@));
            assert(!old_views.contains(entry@));
            assert(new_views.no_duplicates());
        }
        self.entries = entries;
        proof {
            let new_views = self.entries@.map_values(|e: WhitelistEntry| e@);
            assert(new_views == old_views.push(entry@));
            assert(!old_views.contains(entry@));
            assert forall|x: EntryView| #[trigger] new_views.to_set().contains(x)
                == old_views.to_set().insert(entry@).contains(x) by {
                if new_views.contains(x) {
                    let j = choose|j: int| 0 <= j < new_views.len() && new_views[j] == x;
                    if j < old_views.len() {
                        assert(old_views[j] == x);
                    }
                }
                if old_views.contains(x) {
                    let j = choose|j: int| 0 <= j < old_views.len() && old_views[j] == x;
                    assert(new_views[j] == x);
                }
                if x == entry@ {
                    assert(new_views[old_views.len() as int] == x);
                }
            }
            assert(new_views.to_set() =~= old_views.to_set().insert(entry@));
        }
    }

    /// Add a pattern. A pattern with no parseable host is ignored.
    pub fn add(&mut self, pattern: &str)
        ensures
            final(self)@ == match entry_for(pattern@) {
                Some(e) => old(self)@.insert(e),
                None => old(self)@,
            },
    {
        let pattern = ascii_lowercase(&trim_chars(&chars_of(pattern)));
        if contains_char(&pattern, '*') {
            let normalized = Self::normalize_wildcard_of(&pattern);
            self.insert(WhitelistEntry::Wildcard(string_of(&normalized)));
        } else {
            let normalized = match Self::normalize_chars(&pattern) {
                Some(n) => n,
                None => return,
            };
            self.insert(WhitelistEntry::Exact(string_of(&normalized)));
        }
    }

    /// Whether one stored entry allows the normalised URL `url`.
    fn entry_allows_url(entry: &WhitelistEntry, url: &Vec<char>) -> (r: bool)
        ensures
            r == entry_allows(entry@, url@),
    {
        let star_chars = vec!['*'];
        assert(star_chars@ == star());
        match entry {
            WhitelistEntry::Exact(pattern) => {
                let p = chars_of(pattern.as_str());
                chars_eq(&p, &star_chars) || chars_eq(&p, url)
            },
            WhitelistEntry::Wildcard(pattern) => {
                let p = chars_of(pattern.as_str());
                chars_eq(&p, &star_chars) || WhitelistEntry::matches_wildcard(&p, url)
            },
        }
    }

    /// An unparseable URL is never allowed.
    pub fn is_allowed(&self, url_str: &str) -> (r: bool)
        ensures
            r == allows(self@, url_str@),
    {
        let normalized_url = match Self::normalize_chars(&chars_of(url_str)) {
            Some(n) => n,
            None => return false,
        };
        let ghost views = self.entries@.map_values(|e: WhitelistEntry| e@);
        for k in 0..self.entries.len()
            invariant
                views == self.entries@.map_values(|e: WhitelistEntry| e@),
                normalize_url_spec(url_str@) == Some(normalized_url@),
                forall|j: int| 0 <= j < k ==> !entry_allows(#[trigger] views[j], normalized_url@),
        {
            if Self::entry_allows_url(&self.entries[k], &normalized_url) {
                assert(views[k as int] == self.entries@[k as int]@);
                assert(views.to_set().contains(views[k as int]));
                assert(self@.contains(views[k as int]));
                assert(entry_allows(views[k as int], normalized_url@));
                assert(some_entry_allows(self@, normalized_url@));
                return true;
            }
        }
        assert forall|e: EntryView| self@.contains(e) implies !#[trigger] entry_allows(
            e,
            normalized_url@,
        ) by {
            let j = choose|j: int| 0 <= j < views.len() && views[j] == e;
            assert(!entry_allows(views[j], normalized_url@));
        }
        false
    }
}

impl Default for Whitelist {
    fn default() -> (w: Self)
        ensures
            w@ == Set::<EntryView>::empty(),
    {
        Self::new()
    }
}

} // verus!
