//! Character-level text operations shared by the URL matchers and parsers.
//!
//! Text is modelled as the sequence of its `char`s (the view of `str` and
//! `String`). Executable code works on `Vec<char>` and converts at the edges.
use vstd::prelude::*;

verus! {

/// The characters of `s`, in order.
pub fn chars_of(s: &str) -> (v: Vec<char>)
    ensures
        v@ == s@,
{
    let mut v: Vec<char> = Vec::new();
    for c in it: s.chars()
        invariant
            v@ == it.seq().take(it.index()),
            it.seq() == s@,
    {
        v.push(c);
    }
    v
}

/// Appends one character to a string (`String::push`).
#[verifier::external_body]
fn push_char(s: &mut String, c: char)
    ensures
        final(s)@ == old(s)@.push(c),
{
    s.push(c);
}

/// The string whose characters are `v`.
pub fn string_of(v: &Vec<char>) -> (s: String)
    ensures
        s@ == v@,
{
    let mut s = String::new();
    for i in 0..v.len()
        invariant
            s@ == v@.take(i as int),
    {
        push_char(&mut s, v[i]);
        assert(v@.take(i + 1) == v@.take(i as int).push(v@[i as int]));
    }
    s
}


/// Unicode `White_Space`: the characters that `char::is_whitespace` accepts.
pub open spec fn is_whitespace(c: char) -> bool {
    ||| c == '\t' || c == '\n' || c == '\u{0B}' || c == '\u{0C}' || c == '\r' || c == ' '
    ||| c == '\u{85}' || c == '\u{A0}' || c == '\u{1680}'
    ||| ('\u{2000}' <= c && c <= '\u{200A}')
    ||| c == '\u{2028}' || c == '\u{2029}' || c == '\u{202F}' || c == '\u{205F}'
    ||| c == '\u{3000}'
}

/// Whether `c` is Unicode white space.
pub fn char_is_whitespace(c: char) -> (b: bool)
    ensures
        b == is_whitespace(c),
{
    c == '\t' || c == '\n' || c == '\u{0B}' || c == '\u{0C}' || c == '\r' || c == ' '
        || c == '\u{85}' || c == '\u{A0}' || c == '\u{1680}' || ('\u{2000}' <= c && c
        <= '\u{200A}') || c == '\u{2028}' || c == '\u{2029}' || c == '\u{202F}' || c
        == '\u{205F}' || c == '\u{3000}'
}


/// Number of white-space characters at the start of `s`.
pub open spec fn leading_ws(s: Seq<char>) -> nat
    decreases s.len(),
{
    if s.len() > 0 && is_whitespace(s[0]) {
        1 + leading_ws(s.drop_first())
    } else {
        0
    }
}

/// Number of white-space characters at the end of `s`.
pub open spec fn trailing_ws(s: Seq<char>) -> nat
    decreases s.len(),
{
    if s.len() > 0 && is_whitespace(s.last()) {
        1 + trailing_ws(s.drop_last())
    } else {
        0
    }
}

/// `s` without leading and trailing white space (`str::trim`).
pub open spec fn trim(s: Seq<char>) -> Seq<char> {
    let t = s.skip(leading_ws(s) as int);
    t.take(t.len() - trailing_ws(t))
}

/// Number of copies of `c` at the start of `s`.
pub open spec fn leading_count(s: Seq<char>, c: char) -> nat
    decreases s.len(),
{
    if s.len() > 0 && s[0] == c {
        1 + leading_count(s.drop_first(), c)
    } else {
        0
    }
}

/// Number of copies of `c` at the end of `s`.
pub open spec fn trailing_count(s: Seq<char>, c: char) -> nat
    decreases s.len(),
{
    if s.len() > 0 && s.last() == c {
        1 + trailing_count(s.drop_last(), c)
    } else {
        0
    }
}

/// `s` without any leading `c` (`str::trim_start_matches` with one char).
pub open spec fn trim_start_char(s: Seq<char>, c: char) -> Seq<char> {
    s.skip(leading_count(s, c) as int)
}

/// At most every character is a trailing `c`.
pub proof fn lemma_trailing_count_bound(s: Seq<char>, c: char)
    ensures
        trailing_count(s, c) <= s.len(),
    decreases s.len(),
{
    if s.len() > 0 && s.last() == c {
        lemma_trailing_count_bound(s.drop_last(), c);
    }
}

/// `s` without any trailing `c` (`str::trim_end_matches` with one char).
pub open spec fn trim_end_char(s: Seq<char>, c: char) -> Seq<char> {
    s.take(s.len() - trailing_count(s, c))
}

/// `p` is a prefix of `s`.
pub open spec fn has_prefix(s: Seq<char>, p: Seq<char>) -> bool {
    p.len() <= s.len() && s.take(p.len() as int) == p
}

/// `p` is a suffix of `s`.
pub open spec fn has_suffix(s: Seq<char>, p: Seq<char>) -> bool {
    p.len() <= s.len() && s.skip(s.len() - p.len()) == p
}

/// Index of the first `c` in `s`, or `-1` when there is none.
pub open spec fn find_char(s: Seq<char>, c: char) -> int
    decreases s.len(),
{
    if s.len() == 0 {
        -1
    } else if s[0] == c {
        0
    } else {
        let r = find_char(s.drop_first(), c);
        if r < 0 {
            -1
        } else {
            r + 1
        }
    }
}

/// Index of the first occurrence of `needle` in `s`, or `-1` when there is none.
pub open spec fn find_seq(s: Seq<char>, needle: Seq<char>) -> int
    decreases s.len(),
{
    if has_prefix(s, needle) {
        0
    } else if s.len() == 0 {
        -1
    } else {
        let r = find_seq(s.drop_first(), needle);
        if r < 0 {
            -1
        } else {
            r + 1
        }
    }
}

/// Number of occurrences of `c` in `s`.
pub open spec fn count_char(s: Seq<char>, c: char) -> nat
    decreases s.len(),
{
    if s.len() == 0 {
        0
    } else {
        count_char(s.drop_last(), c) + (if s.last() == c { 1nat } else { 0nat })
    }
}

/// The pieces of `s` between occurrences of `c` (`str::split` with one char).
pub open spec fn split_char(s: Seq<char>, c: char) -> Seq<Seq<char>>
    decreases s.len(),
{
    let i = find_char(s, c);
    if i < 0 {
        seq![s]
    } else {
        proof {
            lemma_find_char(s, c);
        }
        seq![s.take(i)] + split_char(s.skip(i + 1), c)
    }
}

// ---------------------------------------------------------------------------
// Facts about the definitions above.

/// The first `leading_ws(s)` characters are white space, and the one after
/// them, if any, is not.
pub proof fn lemma_leading_ws_bound(s: Seq<char>)
    ensures
        leading_ws(s) <= s.len(),
        forall|k: int| 0 <= k < leading_ws(s) ==> is_whitespace(#[trigger] s[k]),
        leading_ws(s) < s.len() ==> !is_whitespace(s[leading_ws(s) as int]),
    decreases s.len(),
{
    if s.len() > 0 && is_whitespace(s[0]) {
        let t = s.drop_first();
        lemma_leading_ws_bound(t);
        assert forall|k: int| 0 <= k < leading_ws(s) implies is_whitespace(#[trigger] s[k]) by {
            if k > 0 {
                assert(s[k] == t[k - 1]);
            }
        }
        if leading_ws(s) < s.len() {
            assert(s[leading_ws(s) as int] == t[leading_ws(t) as int]);
        }
    }
}

/// The last `trailing_ws(s)` characters are white space, and the one before
/// them, if any, is not.
pub proof fn lemma_trailing_ws_bound(s: Seq<char>)
    ensures
        trailing_ws(s) <= s.len(),
        forall|k: int| s.len() - trailing_ws(s) <= k < s.len() ==> is_whitespace(#[trigger] s[k]),
        trailing_ws(s) < s.len() ==> !is_whitespace(s[s.len() - 1 - trailing_ws(s)]),
    decreases s.len(),
{
    if s.len() > 0 && is_whitespace(s.last()) {
        let t = s.drop_last();
        lemma_trailing_ws_bound(t);
        assert forall|k: int| s.len() - trailing_ws(s) <= k < s.len() implies is_whitespace(
            #[trigger] s[k],
        ) by {
            if k < s.len() - 1 {
                assert(s[k] == t[k]);
            }
        }
        if trailing_ws(s) < s.len() {
            assert(s[s.len() - 1 - trailing_ws(s)] == t[t.len() - 1 - trailing_ws(t)]);
        }
    }
}

/// Trimming twice is trimming once.
pub proof fn lemma_trim_idempotent(s: Seq<char>)
    ensures
        trim(trim(s)) == trim(s),
{
    let i = leading_ws(s);
    lemma_leading_ws_bound(s);
    let t = s.skip(i as int);
    let j = trailing_ws(t);
    lemma_trailing_ws_bound(t);
    let r = trim(s);
    assert(r == t.take(t.len() - j));
    if r.len() > 0 {
        assert(r[0] == t[0]);
        assert(t[0] == s[i as int]);
        assert(leading_ws(r) == 0);
        assert(r.last() == t[t.len() - 1 - j]);
        assert(r.drop_first().len() < r.len());
        assert(trailing_ws(r) == 0);
    }
    assert(trim(r) =~= r);
}


/// `leading_ws` is the length of the longest all-white-space prefix.
pub proof fn lemma_leading_ws(s: Seq<char>, i: int)
    requires
        0 <= i <= s.len(),
        forall|k: int| 0 <= k < i ==> is_whitespace(#[trigger] s[k]),
        i == s.len() || !is_whitespace(s[i]),
    ensures
        leading_ws(s) == i,
    decreases i,
{
    if i > 0 {
        assert(is_whitespace(s[0]));
        let t = s.drop_first();
        assert forall|k: int| 0 <= k < i - 1 implies is_whitespace(#[trigger] t[k]) by {
            assert(t[k] == s[k + 1]);
        }
        lemma_leading_ws(t, i - 1);
    }
}

/// `trailing_ws` is the length of the longest all-white-space suffix.
pub proof fn lemma_trailing_ws(s: Seq<char>, j: int)
    requires
        0 <= j <= s.len(),
        forall|k: int| s.len() - j <= k < s.len() ==> is_whitespace(#[trigger] s[k]),
        j == s.len() || !is_whitespace(s[s.len() - 1 - j]),
    ensures
        trailing_ws(s) == j,
    decreases j,
{
    if j > 0 {
        assert(is_whitespace(s[s.len() - 1]));
        let t = s.drop_last();
        assert forall|k: int| t.len() - (j - 1) <= k < t.len() implies is_whitespace(
            #[trigger] t[k],
        ) by {
            assert(t[k] == s[k]);
        }
        lemma_trailing_ws(t, j - 1);
    }
}

/// `leading_count` is the length of the longest prefix made of `c`.
pub proof fn lemma_leading_count(s: Seq<char>, c: char, i: int)
    requires
        0 <= i <= s.len(),
        forall|k: int| 0 <= k < i ==> #[trigger] s[k] == c,
        i == s.len() || s[i] != c,
    ensures
        leading_count(s, c) == i,
    decreases i,
{
    if i > 0 {
        assert(s[0] == c);
        let t = s.drop_first();
        assert forall|k: int| 0 <= k < i - 1 implies #[trigger] t[k] == c by {
            assert(t[k] == s[k + 1]);
        }
        lemma_leading_count(t, c, i - 1);
    }
}

/// `trailing_count` is the length of the longest suffix made of `c`.
pub proof fn lemma_trailing_count(s: Seq<char>, c: char, j: int)
    requires
        0 <= j <= s.len(),
        forall|k: int| s.len() - j <= k < s.len() ==> #[trigger] s[k] == c,
        j == s.len() || s[s.len() - 1 - j] != c,
    ensures
        trailing_count(s, c) == j,
    decreases j,
{
    if j > 0 {
        assert(s[s.len() - 1] == c);
        let t = s.drop_last();
        assert forall|k: int| t.len() - (j - 1) <= k < t.len() implies #[trigger] t[k] == c by {
            assert(t[k] == s[k]);
        }
        lemma_trailing_count(t, c, j - 1);
    }
}

/// `find_char` gives the first position of `c`, or `-1` when `c` does not occur.
pub proof fn lemma_find_char(s: Seq<char>, c: char)
    ensures
        -1 <= find_char(s, c) < s.len(),
        find_char(s, c) >= 0 ==> s[find_char(s, c)] == c,
        forall|k: int| 0 <= k < s.len() && (find_char(s, c) < 0 || k < find_char(s, c)) ==> s[k]
            != c,
    decreases s.len(),
{
    if s.len() > 0 && s[0] != c {
        let t = s.drop_first();
        lemma_find_char(t, c);
        assert forall|k: int| 0 <= k < s.len() && (find_char(s, c) < 0 || k < find_char(s, c))
            implies s[k] != c by {
            if k > 0 {
                assert(s[k] == t[k - 1]);
            }
        }
    }
}

/// A position that is the first `c` is what `find_char` gives.
pub proof fn lemma_find_char_at(s: Seq<char>, c: char, i: int)
    requires
        0 <= i < s.len(),
        s[i] == c,
        forall|k: int| 0 <= k < i ==> s[k] != c,
    ensures
        find_char(s, c) == i,
{
    lemma_find_char(s, c);
}

/// When `c` does not occur, `find_char` gives `-1`.
pub proof fn lemma_find_char_none(s: Seq<char>, c: char)
    requires
        forall|k: int| 0 <= k < s.len() ==> s[k] != c,
    ensures
        find_char(s, c) == -1,
{
    lemma_find_char(s, c);
}


/// `find_seq` gives the first occurrence of `needle`, or `-1` when it does not occur.
pub proof fn lemma_find_seq(s: Seq<char>, needle: Seq<char>)
    ensures
        -1 <= find_seq(s, needle) <= s.len(),
        find_seq(s, needle) >= 0 ==> has_prefix(s.skip(find_seq(s, needle)), needle),
        forall|k: int|
            0 <= k <= s.len() && (find_seq(s, needle) < 0 || k < find_seq(s, needle))
                ==> !has_prefix(#[trigger] s.skip(k), needle),
    decreases s.len(),
{
    assert(s.skip(0) == s);
    if !has_prefix(s, needle) && s.len() > 0 {
        let t = s.drop_first();
        lemma_find_seq(t, needle);
        assert forall|k: int|
            0 <= k <= s.len() && (find_seq(s, needle) < 0 || k < find_seq(s, needle))
                implies !has_prefix(#[trigger] s.skip(k), needle) by {
            if k > 0 {
                assert(s.skip(k) == t.skip(k - 1));
            }
        }
        if find_seq(s, needle) >= 0 {
            assert(s.skip(find_seq(s, needle)) == t.skip(find_seq(t, needle)));
        }
    }
}

/// The first occurrence of `needle` is what `find_seq` gives.
pub proof fn lemma_find_seq_at(s: Seq<char>, needle: Seq<char>, i: int)
    requires
        0 <= i <= s.len(),
        has_prefix(s.skip(i), needle),
        forall|k: int| 0 <= k < i ==> !has_prefix(#[trigger] s.skip(k), needle),
    ensures
        find_seq(s, needle) == i,
{
    lemma_find_seq(s, needle);
}

/// When `needle` occurs nowhere, `find_seq` gives `-1`.
pub proof fn lemma_find_seq_none(s: Seq<char>, needle: Seq<char>)
    requires
        forall|k: int| 0 <= k <= s.len() ==> !has_prefix(#[trigger] s.skip(k), needle),
    ensures
        find_seq(s, needle) == -1,
{
    lemma_find_seq(s, needle);
}

/// `find_char` is negative exactly when `c` does not occur.
pub proof fn lemma_find_char_contains(s: Seq<char>, c: char)
    ensures
        (find_char(s, c) >= 0) == s.contains(c),
{
    lemma_find_char(s, c);
    if find_char(s, c) >= 0 {
        assert(s[find_char(s, c)] == c);
    }
}

// ---------------------------------------------------------------------------
// Executable operations on character vectors.

/// The characters `from..to` of `v`.
pub fn slice_chars(v: &Vec<char>, from: usize, to: usize) -> (r: Vec<char>)
    requires
        from <= to <= v.len(),
    ensures
        r@ == v@.subrange(from as int, to as int),
{
    let mut r: Vec<char> = Vec::new();
    let mut i = from;
    while i < to
        invariant
            from <= i <= to <= v.len(),
            r@ == v@.subrange(from as int, i as int),
        decreases to - i,
    {
        r.push(v[i]);
        i += 1;
    }
    r
}

/// `a` followed by `b`.
pub fn concat_chars(a: &Vec<char>, b: &Vec<char>) -> (r: Vec<char>)
    ensures
        r@ == a@ + b@,
{
    let mut r = a.clone();
    for i in 0..b.len()
        invariant
            r@ == a@ + b@.take(i as int),
    {
        r.push(b[i]);
        assert(b@.take(i + 1) == b@.take(i as int).push(b@[i as int]));
    }
    assert(b@.take(b.len() as int) == b@);
    r
}

/// Whether `a` and `b` hold the same characters.
pub fn chars_eq(a: &Vec<char>, b: &Vec<char>) -> (r: bool)
    ensures
        r == (a@ == b@),
{
    if a.len() != b.len() {
        return false;
    }
    for i in 0..a.len()
        invariant
            a.len() == b.len(),
            forall|k: int| 0 <= k < i ==> a@[k] == b@[k],
    {
        if a[i] != b[i] {
            return false;
        }
    }
    assert(a@ == b@);
    true
}

/// How `a` compares with `b`: character by character by code point, a
/// proper prefix first; -1, 0 or 1. This is the order of `str`, since UTF-8
/// keeps code-point order byte by byte.
pub open spec fn text_sign(a: Seq<char>, b: Seq<char>) -> int
    decreases a.len(),
{
    if a.len() == 0 {
        if b.len() == 0 {
            0
        } else {
            -1
        }
    } else if b.len() == 0 {
        1
    } else if (a[0] as u32) < (b[0] as u32) {
        -1
    } else if (a[0] as u32) > (b[0] as u32) {
        1
    } else {
        text_sign(a.drop_first(), b.drop_first())
    }
}

/// How the characters `a` compare with `b` (see `text_sign`).
pub fn compare_chars(a: &Vec<char>, b: &Vec<char>) -> (r: i8)
    ensures
        r == text_sign(a@, b@),
{
    let mut i: usize = 0;
    assert(a@.skip(0) =~= a@);
    assert(b@.skip(0) =~= b@);
    while i < a.len() && i < b.len()
        invariant
            i <= a.len(),
            i <= b.len(),
            text_sign(a@, b@) == text_sign(a@.skip(i as int), b@.skip(i as int)),
        decreases a.len() - i,
    {
        let x = a[i] as u32;
        let y = b[i] as u32;
        if x < y {
            return -1;
        }
        if x > y {
            return 1;
        }
        assert(a@.skip(i as int).drop_first() =~= a@.skip(i + 1));
        assert(b@.skip(i as int).drop_first() =~= b@.skip(i + 1));
        i = i + 1;
    }
    if i == a.len() {
        if i == b.len() {
            0
        } else {
            -1
        }
    } else {
        1
    }
}

/// The texts of a list of strings.
pub open spec fn texts(v: Seq<String>) -> Seq<Seq<char>> {
    v.map_values(|s: String| s@)
}

/// Whether `a` and `b` hold the same text.
pub fn same_text(a: &str, b: &str) -> (r: bool)
    ensures
        r == (a@ == b@),
{
    chars_eq(&chars_of(a), &chars_of(b))
}

/// Whether `s` begins with `p`.
pub fn starts_with(s: &Vec<char>, p: &Vec<char>) -> (r: bool)
    ensures
        r == has_prefix(s@, p@),
{
    if p.len() > s.len() {
        return false;
    }
    for i in 0..p.len()
        invariant
            p.len() <= s.len(),
            forall|k: int| 0 <= k < i ==> s@[k] == p@[k],
    {
        if s[i] != p[i] {
            assert(s@.take(p.len() as int)[i as int] != p@[i as int]);
            return false;
        }
    }
    assert(s@.take(p.len() as int) == p@);
    true
}

/// Whether `s` ends with `p`.
pub fn ends_with(s: &Vec<char>, p: &Vec<char>) -> (r: bool)
    ensures
        r == has_suffix(s@, p@),
{
    if p.len() > s.len() {
        return false;
    }
    let off = s.len() - p.len();
    for i in 0..p.len()
        invariant
            p.len() <= s.len(),
            off == s.len() - p.len(),
            forall|k: int| 0 <= k < i ==> s@[off + k] == p@[k],
    {
        if s[off + i] != p[i] {
            assert(s@.skip(off as int)[i as int] != p@[i as int]);
            return false;
        }
    }
    assert(s@.skip(off as int) == p@);
    true
}

/// Whether `s` ends with the character `c`.
pub fn ends_with_char(s: &Vec<char>, c: char) -> (r: bool)
    ensures
        r == (s@.len() > 0 && s@.last() == c),
        r == has_suffix(s@, seq![c]),
{
    if s.len() > 0 {
        assert(s@.skip(s.len() - 1) =~= seq![s@.last()]);
        assert(s@.skip(s.len() - 1)[0] == s@.last());
        assert(seq![c][0] == c);
    }
    s.len() > 0 && s[s.len() - 1] == c
}

/// Position of the first `c` in `s`.
pub fn find_char_in(s: &Vec<char>, c: char) -> (r: Option<usize>)
    ensures
        match r {
            Some(i) => i == find_char(s@, c),
            None => find_char(s@, c) == -1,
        },
{
    for i in 0..s.len()
        invariant
            forall|k: int| 0 <= k < i ==> s@[k] != c,
    {
        if s[i] == c {
            proof {
                lemma_find_char_at(s@, c, i as int);
            }
            return Some(i);
        }
    }
    proof {
        lemma_find_char_none(s@, c);
    }
    None
}

/// Whether `c` occurs in `s`.
pub fn contains_char(s: &Vec<char>, c: char) -> (r: bool)
    ensures
        r == s@.contains(c),
        r == (find_char(s@, c) >= 0),
{
    proof {
        lemma_find_char_contains(s@, c);
    }
    find_char_in(s, c).is_some()
}

/// Position of the first occurrence of `needle` in `s`.
pub fn find_seq_in(s: &Vec<char>, needle: &Vec<char>) -> (r: Option<usize>)
    ensures
        match r {
            Some(i) => i == find_seq(s@, needle@),
            None => find_seq(s@, needle@) == -1,
        },
{
    let mut i: usize = 0;
    while i < s.len()
        invariant
            i <= s.len(),
            forall|k: int| 0 <= k < i ==> !has_prefix(#[trigger] s@.skip(k), needle@),
        decreases s.len() - i,
    {
        if needle.len() <= s.len() - i {
            let mut j: usize = 0;
            let mut ok = true;
            while j < needle.len()
                invariant
                    i <= s.len(),
                    needle.len() <= s.len() - i,
                    j <= needle.len(),
                    ok ==> forall|k: int| 0 <= k < j ==> s@[i + k] == needle@[k],
                    !ok ==> !has_prefix(s@.skip(i as int), needle@),
                decreases needle.len() - j,
            {
                if ok && s[i + j] != needle[j] {
                    assert(s@.skip(i as int).take(needle.len() as int)[j as int] != needle@[j as int]);
                    ok = false;
                }
                j += 1;
            }
            if ok {
                assert(s@.skip(i as int).take(needle.len() as int) == needle@);
                proof {
                    lemma_find_seq_at(s@, needle@, i as int);
                }
                return Some(i);
            }
        }
        i += 1;
    }
    if needle.len() == 0 {
        assert(s@.skip(i as int).take(0) == needle@);
        proof {
            lemma_find_seq_at(s@, needle@, i as int);
        }
        return Some(i);
    }
    proof {
        lemma_find_seq_none(s@, needle@);
    }
    None
}

/// `s` without leading and trailing white space.
pub fn trim_chars(s: &Vec<char>) -> (r: Vec<char>)
    ensures
        r@ == trim(s@),
{
    let mut i: usize = 0;
    while i < s.len() && char_is_whitespace(s[i])
        invariant
            i <= s.len(),
            forall|k: int| 0 <= k < i ==> is_whitespace(#[trigger] s@[k]),
        decreases s.len() - i,
    {
        i += 1;
    }
    let mut j: usize = s.len();
    while j > i && char_is_whitespace(s[j - 1])
        invariant
            i <= j <= s.len(),
            forall|k: int| j <= k < s.len() ==> is_whitespace(#[trigger] s@[k]),
        decreases j,
    {
        j -= 1;
    }
    proof {
        lemma_leading_ws(s@, i as int);
        let t = s@.skip(i as int);
        assert forall|k: int| t.len() - (s.len() - j) <= k < t.len() implies is_whitespace(
            #[trigger] t[k],
        ) by {
            assert(t[k] == s@[i + k]);
        }
        if j > i {
            assert(t[t.len() - 1 - (s.len() - j)] == s@[j - 1]);
        }
        lemma_trailing_ws(t, s.len() - j);
        assert(t.take(t.len() - (s.len() - j)) == s@.subrange(i as int, j as int));
    }
    slice_chars(s, i, j)
}

/// `s` without any leading `c`.
pub fn trim_start_char_in(s: &Vec<char>, c: char) -> (r: Vec<char>)
    ensures
        r@ == trim_start_char(s@, c),
{
    let mut i: usize = 0;
    while i < s.len() && s[i] == c
        invariant
            i <= s.len(),
            forall|k: int| 0 <= k < i ==> #[trigger] s@[k] == c,
        decreases s.len() - i,
    {
        i += 1;
    }
    proof {
        lemma_leading_count(s@, c, i as int);
    }
    slice_chars(s, i, s.len())
}

/// `s` without any trailing `c`.
pub fn trim_end_char_in(s: &Vec<char>, c: char) -> (r: Vec<char>)
    ensures
        r@ == trim_end_char(s@, c),
{
    let mut j: usize = s.len();
    while j > 0 && s[j - 1] == c
        invariant
            j <= s.len(),
            forall|k: int| j <= k < s.len() ==> #[trigger] s@[k] == c,
        decreases j,
    {
        j -= 1;
    }
    proof {
        lemma_trailing_count(s@, c, s.len() - j);
    }
    slice_chars(s, 0, j)
}

/// Number of occurrences of `c` in `s`.
pub fn count_char_in(s: &Vec<char>, c: char) -> (r: usize)
    ensures
        r == count_char(s@, c),
{
    let mut n: usize = 0;
    for i in 0..s.len()
        invariant
            n == count_char(s@.take(i as int), c),
            n <= i,
    {
        assert(s@.take(i + 1).drop_last() == s@.take(i as int));
        if s[i] == c {
            n += 1;
        }
    }
    assert(s@.take(s.len() as int) == s@);
    n
}

/// The pieces of `s` between occurrences of `c`.
pub fn split_char_in(s: &Vec<char>, c: char) -> (r: Vec<Vec<char>>)
    ensures
        r@.len() == split_char(s@, c).len(),
        forall|k: int| 0 <= k < r@.len() ==> #[trigger] r@[k]@ == split_char(s@, c)[k],
{
    let mut r: Vec<Vec<char>> = Vec::new();
    let mut start: usize = 0;
    let ghost mut done: Seq<Seq<char>> = Seq::empty();
    assert(s@.skip(0) == s@);
    assert(done + split_char(s@, c) == split_char(s@, c));
    for i in 0..s.len()
        invariant
            start <= i,
            r@.len() == done.len(),
            forall|k: int| 0 <= k < r@.len() ==> #[trigger] r@[k]@ == done[k],
            forall|k: int| start <= k < i ==> s@[k] != c,
            split_char(s@, c) == done + split_char(s@.skip(start as int), c),
    {
        if s[i] == c {
            let piece = slice_chars(s, start, i);
            proof {
                let t = s@.skip(start as int);
                lemma_find_char_at(t, c, i - start);
                assert(t.take(i - start) == piece@);
                assert(t.skip(i - start + 1) == s@.skip(i + 1));
                assert(split_char(t, c) == seq![piece@] + split_char(s@.skip(i + 1), c));
                done = done.push(piece@);
                assert(split_char(s@, c) == done + split_char(s@.skip(i + 1), c));
            }
            r.push(piece);
            start = i + 1;
        }
    }
    let last = slice_chars(s, start, s.len());
    proof {
        let t = s@.skip(start as int);
        lemma_find_char_none(t, c);
        assert(t == last@);
        done = done.push(last@);
    }
    r.push(last);
    r
}

} // verus!
