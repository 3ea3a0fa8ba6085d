//! C library functions the renderer links against on targets without a C
//! library, written in Rust: here, reading an integer from text as `atoi`
//! does.
use vstd::prelude::*;

use crate::text::{char_is_whitespace, chars_of, leading_ws};

verus! {

/// The number of bytes of `c` in UTF-8.
pub open spec fn utf8_width(c: char) -> int {
    if (c as u32) < 0x80 {
        1
    } else if (c as u32) < 0x800 {
        2
    } else if (c as u32) < 0x10000 {
        3
    } else {
        4
    }
}

/// The number of bytes of `s` in UTF-8.
pub open spec fn utf8_size(s: Seq<char>) -> int
    decreases s.len(),
{
    if s.len() == 0 {
        0
    } else {
        utf8_size(s.drop_last()) + utf8_width(s.last())
    }
}

/// `s.get(..n)` on a `str`: the characters that fill exactly the first `n`
/// bytes, when `n` falls between two characters; else `None`.
pub open spec fn byte_prefix(s: Seq<char>, n: int) -> Option<Seq<char>> {
    if exists|k: int| 0 <= k <= s.len() && utf8_size(#[trigger] s.take(k)) == n {
        Some(s.take(choose|k: int| 0 <= k <= s.len() && utf8_size(#[trigger] s.take(k)) == n))
    } else {
        None
    }
}

/// Whether `c` is an ASCII digit.
pub open spec fn is_digit(c: char) -> bool {
    '0' <= c && c <= '9'
}

/// Number of characters at the end of `s` that are not ASCII digits.
pub open spec fn trailing_non_digits(s: Seq<char>) -> nat
    decreases s.len(),
{
    if s.len() > 0 && !is_digit(s.last()) {
        1 + trailing_non_digits(s.drop_last())
    } else {
        0
    }
}

/// The value of a run of ASCII digits.
pub open spec fn digits_value(d: Seq<char>) -> int
    decreases d.len(),
{
    if d.len() == 0 {
        0
    } else {
        digits_value(d.drop_last()) * 10 + (d.last() as int - '0' as int)
    }
}

/// `t` without its sign, if it has one.
pub open spec fn unsigned_part(t: Seq<char>) -> Seq<char> {
    if t.len() > 0 && (t[0] == '-' || t[0] == '+') {
        t.drop_first()
    } else {
        t
    }
}

/// Whether every character of `d` is an ASCII digit.
pub open spec fn all_digits(d: Seq<char>) -> bool {
    forall|i: int| 0 <= i < d.len() ==> is_digit(#[trigger] d[i])
}

/// `str::parse::<i32>`: an optional `+` or `-`, then one or more ASCII
/// digits, whose value must fit.
pub open spec fn parse_i32(t: Seq<char>) -> Option<i32> {
    let negative = t.len() > 0 && t[0] == '-';
    let digits = unsigned_part(t);
    if digits.len() == 0 || !all_digits(digits) {
        None
    } else if negative {
        if -digits_value(digits) >= i32::MIN {
            Some((-digits_value(digits)) as i32)
        } else {
            None
        }
    } else if digits_value(digits) <= i32::MAX {
        Some(digits_value(digits) as i32)
    } else {
        None
    }
}

/// What `atoi` reads from `s`: leading white space is skipped; of the rest,
/// the first 11 bytes are kept when they end between two characters (else
/// all of it); trailing characters other than digits are dropped; what is
/// left is read as an `i32`, and 0 stands for text that does not read as
/// one.
pub open spec fn atoi_of(s: Seq<char>) -> i32 {
    let rest = s.skip(leading_ws(s) as int);
    let kept = match byte_prefix(rest, 11) {
        Some(p) => p,
        None => rest,
    };
    let t = kept.take(kept.len() - trailing_non_digits(kept));
    match parse_i32(t) {
        Some(v) => v,
        None => 0,
    }
}

/// A prefix one character longer is that character's width longer in UTF-8.
proof fn lemma_size_step(s: Seq<char>, k: int)
    requires
        0 <= k < s.len(),
    ensures
        utf8_size(s.take(k + 1)) == utf8_size(s.take(k)) + utf8_width(s[k]),
{
    assert(s.take(k + 1).drop_last() =~= s.take(k));
}

/// Longer prefixes are longer in UTF-8.
proof fn lemma_size_grows(s: Seq<char>, j: int, k: int)
    requires
        0 <= j <= k <= s.len(),
    ensures
        utf8_size(s.take(j)) + (k - j) <= utf8_size(s.take(k)),
    decreases k - j,
{
    if j < k {
        lemma_size_grows(s, j, k - 1);
        lemma_size_step(s, k - 1);
    }
}

/// The digits' value is at least that of any prefix of them, and not
/// negative.
proof fn lemma_digits_grow(d: Seq<char>, i: int)
    requires
        0 <= i <= d.len(),
        all_digits(d),
    ensures
        0 <= digits_value(d.take(i)) <= digits_value(d),
    decreases d.len(),
{
    if i < d.len() {
        assert forall|k: int| 0 <= k < d.drop_last().len() implies is_digit(#[trigger] d.drop_last()[k]) by {
            assert(d.drop_last()[k] == d[k]);
        }
        lemma_digits_grow(d.drop_last(), i);
        assert(d.drop_last().take(i) =~= d.take(i));
        lemma_digits_grow(d.drop_last(), d.len() - 1);
        assert(d.drop_last().take(d.len() - 1) =~= d.drop_last());
        assert(is_digit(d.last()));
    } else {
        assert(d.take(i) =~= d);
        if d.len() > 0 {
            lemma_digits_grow(d.drop_last(), d.len() - 1);
            assert(d.drop_last().take(d.len() - 1) =~= d.drop_last());
            assert forall|k: int| 0 <= k < d.drop_last().len() implies is_digit(#[trigger] d.drop_last()[k]) by {
                assert(d.drop_last()[k] == d[k]);
            }
            assert(is_digit(d.last()));
        }
    }
}

/// The width of `c` in UTF-8.
fn width_of(c: char) -> (w: usize)
    ensures
        w == utf8_width(c),
{
    if (c as u32) < 0x80 {
        1
    } else if (c as u32) < 0x800 {
        2
    } else if (c as u32) < 0x10000 {
        3
    } else {
        4
    }
}

/// `str::parse::<i32>` on characters (see `parse_i32`).
fn parse_i32_chars(t: &Vec<char>, from: usize, to: usize) -> (r: Option<i32>)
    requires
        from <= to <= t.len(),
    ensures
        r == parse_i32(t@.subrange(from as int, to as int)),
{
    let ghost text = t@.subrange(from as int, to as int);
    let negative = from < to && t[from] == '-';
    let start: usize = if from < to && (t[from] == '-' || t[from] == '+') {
        from + 1
    } else {
        from
    };
    let ghost digits = t@.subrange(start as int, to as int);
    assert(digits =~= unsigned_part(text));
    if start == to {
        return None;
    }
    let mut value: i64 = 0;
    let mut i: usize = start;
    while i < to
        invariant
            start <= i <= to <= t.len(),
            digits == t@.subrange(start as int, to as int),
            text == t@.subrange(from as int, to as int),
            digits == unsigned_part(text),
            negative == (text.len() > 0 && text[0] == '-'),
            digits.len() > 0,
            forall|k: int| 0 <= k < i - start ==> is_digit(#[trigger] digits[k]),
            value == digits_value(digits.take(i - start)),
            0 <= value <= 0x8000_0000,
        decreases to - i,
    {
        let c = t[i];
        if !('0' <= c && c <= '9') {
            proof {
                assert(digits[i - start] == c);
                assert(!all_digits(digits));
                assert(parse_i32(text) is None);
            }
            return None;
        }
        assert(digits.take(i - start + 1).drop_last() =~= digits.take(i - start));
        let next: i64 = value * 10 + ((c as u32) - ('0' as u32)) as i64;
        if next > 0x8000_0000 {
            proof {
                assert(digits.take(i - start + 1).last() == c);
                assert(digits_value(digits.take(i - start + 1)) == next);
                if all_digits(digits) {
                    lemma_digits_grow(digits, i - start + 1);
                    assert(digits_value(digits) > 0x8000_0000);
                }
                assert(parse_i32(text) is None);
            }
            return None;
        }
        value = next;
        i = i + 1;
    }
    assert(digits.take(i - start) =~= digits);
    if negative {
        Some((-value) as i32)
    } else if value <= 0x7fff_ffff {
        Some(value as i32)
    } else {
        None
    }
}

/// `atoi` on text (see `atoi_of`).
pub fn atoi(s: &str) -> (r: i32)
    ensures
        r == atoi_of(s@),
{
    let chars = chars_of(s);
    let mut start: usize = 0;
    assert(s@.skip(0) =~= s@);
    while start < chars.len() && char_is_whitespace(chars[start])
        invariant
            start <= chars.len(),
            chars@ == s@,
            leading_ws(s@) == start + leading_ws(s@.skip(start as int)),
        decreases chars.len() - start,
    {
        assert(s@.skip(start as int).drop_first() =~= s@.skip(start + 1));
        start = start + 1;
    }
    let ghost rest = s@.skip(start as int);
    assert(leading_ws(s@) == start) by {
        assert(rest.len() == 0 || !crate::text::is_whitespace(rest[0]));
    }
    // The end of the first 11 bytes, if they end between two characters.
    let mut end: usize = start;
    let mut size: usize = 0;
    while end < chars.len() && size < 11
        invariant
            start <= end <= chars.len(),
            chars@ == s@,
            rest == s@.skip(start as int),
            size == utf8_size(rest.take(end - start)),
            size <= 14,
            end > start ==> utf8_size(rest.take(end - start - 1)) < 11,
        decreases chars.len() - end,
    {
        proof {
            lemma_size_step(rest, end - start);
        }
        size = size + width_of(chars[end]);
        end = end + 1;
    }
    let cut: usize = if size == 11 {
        end
    } else {
        chars.len()
    };
    proof {
        let e = end - start;
        assert(chars.len() == rest.len() + start);
        assert forall|k: int| 0 <= k <= rest.len() && k != e implies utf8_size(#[trigger] rest.take(k)) != 11 by {
            if k < e {
                lemma_size_grows(rest, k, e - 1);
            } else {
                lemma_size_grows(rest, e, k);
            }
        }
        if size == 11 {
            assert(0 <= e <= rest.len() && utf8_size(rest.take(e)) == 11);
            let k = choose|k: int| 0 <= k <= rest.len() && utf8_size(#[trigger] rest.take(k)) == 11;
            assert(k == e);
            assert(byte_prefix(rest, 11) == Some(rest.take(e)));
        } else {
            assert(!exists|k: int| 0 <= k <= rest.len() && utf8_size(#[trigger] rest.take(k)) == 11);
            assert(rest.take(rest.len() as int) =~= rest);
        }
    }
    let ghost kept = s@.subrange(start as int, cut as int);
    assert(kept =~= match byte_prefix(rest, 11) {
        Some(p) => p,
        None => rest,
    });
    let mut stop: usize = cut;
    while stop > start && !('0' <= chars[stop - 1] && chars[stop - 1] <= '9')
        invariant
            start <= stop <= cut <= chars.len(),
            chars@ == s@,
            kept == s@.subrange(start as int, cut as int),
            trailing_non_digits(kept) == (cut - stop) + trailing_non_digits(s@.subrange(start as int, stop as int)),
        decreases stop,
    {
        assert(s@.subrange(start as int, stop as int).drop_last() =~= s@.subrange(start as int, stop - 1));
        stop = stop - 1;
    }
    assert(trailing_non_digits(s@.subrange(start as int, stop as int)) == 0);
    assert(kept.take(kept.len() - trailing_non_digits(kept)) =~= s@.subrange(start as int, stop as int));
    match parse_i32_chars(&chars, start, stop) {
        Some(v) => v,
        None => 0,
    }
}

} // verus!
