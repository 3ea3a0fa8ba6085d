//! The URL shape shared by both whitelists: scheme stripping, the host/path
//! split, ASCII case folding, and host matching with `*` labels.
use vstd::prelude::*;

use crate::text::{
    is_whitespace, lemma_leading_ws, lemma_leading_ws_bound, lemma_trailing_ws,
    lemma_trailing_ws_bound, leading_ws, trailing_ws, trim, chars_eq, concat_chars, contains_char, ends_with, find_char, find_char_in, has_prefix, has_suffix,
    lemma_find_char, slice_chars, split_char, split_char_in, starts_with,
};

verus! {

/// `c` with `A`–`Z` mapped to `a`–`z` (`char::to_ascii_lowercase`).
pub open spec fn ascii_lower_char(c: char) -> char {
    if 'A' <= c && c <= 'Z' {
        ((c as u32) + 32) as char
    } else {
        c
    }
}

/// `s` with ASCII letters folded to lower case (`str::to_ascii_lowercase`).
pub open spec fn ascii_lower(s: Seq<char>) -> Seq<char> {
    s.map_values(|c: char| ascii_lower_char(c))
}

/// `"https://"`.
pub open spec fn https_scheme() -> Seq<char> {
    seq!['h', 't', 't', 'p', 's', ':', '/', '/']
}

/// `"http://"`.
pub open spec fn http_scheme() -> Seq<char> {
    seq!['h', 't', 't', 'p', ':', '/', '/']
}

/// `s` without a leading `https://` or, failing that, `http://`.
pub open spec fn strip_scheme(s: Seq<char>) -> Seq<char> {
    if has_prefix(s, https_scheme()) {
        s.skip(8)
    } else if has_prefix(s, http_scheme()) {
        s.skip(7)
    } else {
        s
    }
}

/// Where the host part of `s` ends: at the first `/`, or at the end.
pub open spec fn host_end(s: Seq<char>) -> int {
    if find_char(s, '/') < 0 {
        s.len() as int
    } else {
        find_char(s, '/')
    }
}

/// `s` split at its first `/` into the part before it and the rest (which keeps the `/`).
pub open spec fn split_at_slash(s: Seq<char>) -> (Seq<char>, Seq<char>) {
    (s.take(host_end(s)), s.skip(host_end(s)))
}

/// `"*."`: a host pattern that covers a domain and all of its subdomains.
pub open spec fn any_subdomain() -> Seq<char> {
    seq!['*', '.']
}

/// Host matching. Without `*` the host must equal the pattern. `*.base` (with
/// no other `*`) matches `base` and every name that ends with `.base`.
/// Otherwise both are split at `.` into the same number of labels, and each
/// pattern label is `*` or equal to the host's.
pub open spec fn domain_matches(pattern: Seq<char>, text: Seq<char>) -> bool {
    if !pattern.contains('*') {
        pattern == text
    } else if has_prefix(pattern, any_subdomain()) && !pattern.skip(2).contains('*') {
        text == pattern.skip(2) || has_suffix(text, seq!['.'] + pattern.skip(2))
    } else {
        let pp = split_char(pattern, '.');
        let tp = split_char(text, '.');
        pp.len() == tp.len() && forall|i: int|
            0 <= i < pp.len() ==> #[trigger] pp[i] == seq!['*'] || pp[i] == tp[i]
    }
}

/// Lower-casing keeps white space white space, and other characters not.
pub proof fn lemma_lower_keeps_whitespace(c: char)
    ensures
        is_whitespace(ascii_lower_char(c)) == is_whitespace(c),
{
}

/// Lower-casing twice is lower-casing once.
pub proof fn lemma_lower_idempotent(s: Seq<char>)
    ensures
        ascii_lower(ascii_lower(s)) == ascii_lower(s),
{
    assert(ascii_lower(ascii_lower(s)) =~= ascii_lower(s));
}

/// Trimming and lower-casing commute.
pub proof fn lemma_trim_lower(s: Seq<char>)
    ensures
        trim(ascii_lower(s)) == ascii_lower(trim(s)),
{
    let l = ascii_lower(s);
    let i = leading_ws(s);
    lemma_leading_ws_bound(s);
    assert forall|k: int| 0 <= k < i implies is_whitespace(#[trigger] l[k]) by {
        lemma_lower_keeps_whitespace(s[k]);
    }
    if i < s.len() {
        lemma_lower_keeps_whitespace(s[i as int]);
    }
    lemma_leading_ws(l, i as int);
    let t = s.skip(i as int);
    let lt = l.skip(i as int);
    assert(lt =~= ascii_lower(t));
    let j = trailing_ws(t);
    lemma_trailing_ws_bound(t);
    assert forall|k: int| lt.len() - j <= k < lt.len() implies is_whitespace(#[trigger] lt[k]) by {
        lemma_lower_keeps_whitespace(t[k]);
    }
    if j < t.len() {
        lemma_lower_keeps_whitespace(t[t.len() - 1 - j]);
    }
    lemma_trailing_ws(lt, j as int);
    assert(trim(l) =~= ascii_lower(trim(s)));
}

/// `c` folded to ASCII lower case.
pub fn ascii_lower_char_of(c: char) -> (r: char)
    ensures
        r == ascii_lower_char(c),
{
    if 'A' <= c && c <= 'Z' {
        let b: u8 = (c as u8) + 32;
        b as char
    } else {
        c
    }
}

/// `s` with ASCII letters folded to lower case.
pub fn ascii_lowercase(s: &Vec<char>) -> (r: Vec<char>)
    ensures
        r@ == ascii_lower(s@),
{
    let mut r: Vec<char> = Vec::new();
    for i in 0..s.len()
        invariant
            r@ == ascii_lower(s@.take(i as int)),
    {
        r.push(ascii_lower_char_of(s[i]));
        assert(ascii_lower(s@.take(i + 1)) == ascii_lower(s@.take(i as int)).push(
            ascii_lower_char(s@[i as int]),
        ));
    }
    assert(s@.take(s.len() as int) == s@);
    r
}

/// `"https://"` as characters.
pub fn https_scheme_chars() -> (r: Vec<char>)
    ensures
        r@ == https_scheme(),
{
    let r = vec!['h', 't', 't', 'p', 's', ':', '/', '/'];
    assert(r@ == https_scheme());
    r
}

/// `"http://"` as characters.
pub fn http_scheme_chars() -> (r: Vec<char>)
    ensures
        r@ == http_scheme(),
{
    let r = vec!['h', 't', 't', 'p', ':', '/', '/'];
    assert(r@ == http_scheme());
    r
}

/// `s` without its `https://` or `http://` scheme.
pub fn strip_scheme_of(s: &Vec<char>) -> (r: Vec<char>)
    ensures
        r@ == strip_scheme(s@),
{
    if starts_with(s, &https_scheme_chars()) {
        slice_chars(s, 8, s.len())
    } else if starts_with(s, &http_scheme_chars()) {
        slice_chars(s, 7, s.len())
    } else {
        s.clone()
    }
}

/// `s` split at its first `/`.
pub fn split_at_slash_of(s: &Vec<char>) -> (r: (Vec<char>, Vec<char>))
    ensures
        r.0@ == split_at_slash(s@).0,
        r.1@ == split_at_slash(s@).1,
{
    proof {
        lemma_find_char(s@, '/');
    }
    let end = match find_char_in(s, '/') {
        Some(i) => i,
        None => s.len(),
    };
    (slice_chars(s, 0, end), slice_chars(s, end, s.len()))
}

/// Whether the host `text` matches the host pattern `pattern`.
pub fn domain_matches_of(pattern: &Vec<char>, text: &Vec<char>) -> (r: bool)
    ensures
        r == domain_matches(pattern@, text@),
{
    if !contains_char(pattern, '*') {
        return chars_eq(pattern, text);
    }
    let wildcard_dot = vec!['*', '.'];
    assert(wildcard_dot@ == any_subdomain());
    if starts_with(pattern, &wildcard_dot) {
        let base = slice_chars(pattern, 2, pattern.len());
        if !contains_char(&base, '*') {
            if chars_eq(text, &base) {
                return true;
            }
            let dot = vec!['.'];
            assert(dot@ == seq!['.']);
            let dotted = concat_chars(&dot, &base);
            return ends_with(text, &dotted);
        }
    }
    let pattern_parts = split_char_in(pattern, '.');
    let text_parts = split_char_in(text, '.');
    if pattern_parts.len() != text_parts.len() {
        return false;
    }
    let star = vec!['*'];
    assert(star@ == seq!['*']);
    for i in 0..pattern_parts.len()
        invariant
            pattern_parts@.len() == text_parts@.len(),
            pattern_parts@.len() == split_char(pattern@, '.').len(),
            text_parts@.len() == split_char(text@, '.').len(),
            forall|k: int|
                0 <= k < pattern_parts@.len() ==> #[trigger] pattern_parts@[k]@ == split_char(
                    pattern@,
                    '.',
                )[k],
            forall|k: int|
                0 <= k < text_parts@.len() ==> #[trigger] text_parts@[k]@ == split_char(
                    text@,
                    '.',
                )[k],
            star@ == seq!['*'],
            pattern@.contains('*'),
            !(has_prefix(pattern@, any_subdomain()) && !pattern@.skip(2).contains('*')),
            forall|k: int|
                0 <= k < i ==> #[trigger] split_char(pattern@, '.')[k] == seq!['*'] || split_char(
                    pattern@,
                    '.',
                )[k] == split_char(text@, '.')[k],
    {
        if !chars_eq(&pattern_parts[i], &star) && !chars_eq(&pattern_parts[i], &text_parts[i]) {
            assert(!(split_char(pattern@, '.')[i as int] == seq!['*'] || split_char(pattern@, '.')[i as int]
                == split_char(text@, '.')[i as int]));
            return false;
        }
    }
    true
}

} // verus!
