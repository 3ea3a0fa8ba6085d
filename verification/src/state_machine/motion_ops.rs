//! Small parsers for motion payloads: `#rrggbb` colours and blend-mode names.
use vstd::prelude::*;
use vstd::utf8::{encode_utf8, is_continuation_byte};

use crate::text::same_text;

verus! {

/// The value of an ASCII hexadecimal digit, if `c` is one.
pub open spec fn hex_digit(c: u8) -> Option<u32> {
    if 48 <= c <= 57 {
        Some((c - 48) as u32)
    } else if 97 <= c <= 102 {
        Some((c - 87) as u32)
    } else if 65 <= c <= 70 {
        Some((c - 55) as u32)
    } else {
        None
    }
}

/// The number written by the hexadecimal digits `d`, if they all are digits.
pub open spec fn hex_number(d: Seq<u8>) -> Option<int>
    decreases d.len(),
{
    if d.len() == 0 {
        Some(0)
    } else {
        match (hex_number(d.drop_last()), hex_digit(d.last())) {
            (Some(high), Some(low)) => Some(high * 16 + low),
            _ => None,
        }
    }
}

/// What `u32::from_str_radix(text, 16)` gives for the bytes of a short
/// `text`: an optional leading `+`, then at least one hexadecimal digit.
pub open spec fn from_hex(d: Seq<u8>) -> Option<int> {
    if d.len() > 0 && d[0] == 43 {
        if d.len() == 1 {
            None
        } else {
            hex_number(d.skip(1))
        }
    } else if d.len() == 0 {
        None
    } else {
        hex_number(d)
    }
}

/// The colour written as `#` followed by (at least) six hexadecimal digits:
/// red, green and blue bytes.
pub open spec fn hex_rgb(b: Seq<u8>) -> Option<(u8, u8, u8)> {
    if b.len() < 7 || b[0] != 35 {
        None
    } else {
        match from_hex(b.subrange(1, 7)) {
            None => None,
            Some(n) => Some(((n / 65536) as u8, ((n / 256) % 256) as u8, (n % 256) as u8)),
        }
    }
}

/// A hex number of at most six digits is below 2^24.
proof fn lemma_hex_number_bound(d: Seq<u8>)
    requires
        hex_number(d) is Some,
    ensures
        0 <= hex_number(d)->0 < pow16(d.len()),
    decreases d.len(),
{
    if d.len() > 0 {
        lemma_hex_number_bound(d.drop_last());
        let high = hex_number(d.drop_last())->0;
        let low = hex_digit(d.last())->0;
        assert(high * 16 + low < pow16(d.len())) by (nonlinear_arith)
            requires
                0 <= high < pow16((d.len() - 1) as nat),
                0 <= low < 16,
                pow16(d.len()) == 16 * pow16((d.len() - 1) as nat),
        ;
        assert(0 <= high * 16 + low) by (nonlinear_arith)
            requires
                0 <= high,
                0 <= low,
        ;
    }
}

/// `16` to the power `n`.
pub open spec fn pow16(n: nat) -> int
    decreases n,
{
    if n == 0 {
        1
    } else {
        16 * pow16((n - 1) as nat)
    }
}

/// The value of a hexadecimal digit.
fn hex_digit_of(c: u8) -> (r: Option<u32>)
    ensures
        r == hex_digit(c),
{
    if 48 <= c && c <= 57 {
        Some((c - 48) as u32)
    } else if 97 <= c && c <= 102 {
        Some((c - 87) as u32)
    } else if 65 <= c && c <= 70 {
        Some((c - 55) as u32)
    } else {
        None
    }
}

/// `u32::from_str_radix(text, 16)` for the bytes `d` of a text of six bytes.
fn from_hex_of(d: &[u8]) -> (r: Option<u32>)
    requires
        d@.len() == 6,
    ensures
        match r {
            Some(n) => from_hex(d@) == Some(n as int),
            None => from_hex(d@) is None,
        },
{
    let start: usize = if d[0] == 43 { 1 } else { 0 };
    assert(start == 1 <==> d@[0] == 43);
    let ghost digits = d@.skip(start as int);
    let mut n: u32 = 0;
    let mut i = start;
    assert(digits.take(0) =~= Seq::<u8>::empty());
    while i < 6
        invariant
            start <= i <= 6,
            start <= 1,
            start == 1 <==> d@[0] == 43,
            d@.len() == 6,
            digits == d@.skip(start as int),
            hex_number(digits.take(i - start)) == Some(n as int),
            n < pow16((i - start) as nat),
        decreases 6 - i,
    {
        let digit = match hex_digit_of(d[i]) {
            Some(v) => v,
            None => {
                proof {
                    assert(digits[i - start] == d@[i as int]);
                    lemma_hex_prefix_fails(digits, (i - start) as int);
                    assert(d@.skip(0) == d@);
                    if start == 1 {
                        assert(d@[0] == 43);
                    } else {
                        assert(d@[0] != 43);
                    }
                }
                return None;
            },
        };
        proof {
            let t = digits.take(i + 1 - start);
            assert(t.drop_last() == digits.take(i - start));
            assert(t.last() == d@[i as int]);
            lemma_pow16_values();
            assert(pow16((i - start) as nat) <= 1048576);
            assert(n * 16 + digit < pow16((i + 1 - start) as nat)) by (nonlinear_arith)
                requires
                    n < pow16((i - start) as nat),
                    digit < 16,
                    pow16((i + 1 - start) as nat) == 16 * pow16((i - start) as nat),
            ;
        }
        n = n * 16 + digit;
        i = i + 1;
    }
    if start == 1 {
        assert(digits.take(5) == digits);
        Some(n)
    } else {
        assert(digits.take(6) == digits);
        assert(digits == d@);
        Some(n)
    }
}

/// The powers of sixteen up to the sixth.
proof fn lemma_pow16_values()
    ensures
        pow16(0) == 1,
        pow16(1) == 16,
        pow16(2) == 256,
        pow16(3) == 4096,
        pow16(4) == 65536,
        pow16(5) == 1048576,
        pow16(6) == 16777216,
{
    assert(pow16(0) == 1);
    assert(pow16(1) == 16);
    assert(pow16(2) == 256);
    assert(pow16(3) == 4096);
    assert(pow16(4) == 65536);
    assert(pow16(5) == 1048576);
    assert(pow16(6) == 16777216);
}

/// When some digit of a prefix is not hexadecimal, the whole text is not a number.
proof fn lemma_hex_prefix_fails(d: Seq<u8>, k: int)
    requires
        0 <= k < d.len(),
        hex_digit(d[k]) is None,
    ensures
        hex_number(d) is None,
    decreases d.len(),
{
    if k < d.len() - 1 {
        lemma_hex_prefix_fails(d.drop_last(), k);
    } else {
        assert(d.last() == d[k]);
    }
}

/// Parse `#rrggbb` into red, green and blue bytes; `None` unless the text is
/// `#` followed by at least six bytes whose first six form a hexadecimal
/// number (possibly with a leading `+`). It panics when the sixth byte after
/// the `#` ends inside a character.
pub fn parse_hex_rgb(s: &str) -> (r: Option<[u8; 3]>)
    requires
        encode_utf8(s@).len() > 7 && encode_utf8(s@)[0] == 35 ==> !is_continuation_byte(
            encode_utf8(s@)[7],
        ),
    ensures
        match r {
            Some(rgb) => hex_rgb(encode_utf8(s@)) == Some((rgb@[0], rgb@[1], rgb@[2])),
            None => hex_rgb(encode_utf8(s@)) is None,
        },
{
    let b = s.as_bytes();
    if b.len() < 7 || b[0] != 35 {
        return None;
    }
    let mut digits: Vec<u8> = Vec::new();
    for i in 1..7
        invariant
            b@.len() >= 7,
            digits@ == b@.subrange(1, i as int),
    {
        digits.push(b[i]);
    }
    let n = match from_hex_of(digits.as_slice()) {
        Some(n) => n,
        None => return None,
    };
    proof {
        let stripped = if digits@[0] == 43 { digits@.skip(1) } else { digits@ };
        lemma_hex_number_bound(stripped);
        lemma_pow16_values();
        assert((n >> 16) as u8 == (n / 65536) as u8 && (n >> 8) as u8 == ((n / 256) % 256) as u8
            && n as u8 == (n % 256) as u8) by (bit_vector)
            requires
                n < 16777216,
        ;
    }
    let rgb = [(n >> 16) as u8, (n >> 8) as u8, n as u8];
    Some(rgb)
}

/// The blend mode named `name`, numbered as in Lottie.
pub open spec fn blend_named(name: Seq<char>) -> Option<u8> {
    if name == "normal"@ {
        Some(0)
    } else if name == "multiply"@ {
        Some(1)
    } else if name == "screen"@ {
        Some(2)
    } else if name == "overlay"@ {
        Some(3)
    } else if name == "darken"@ {
        Some(4)
    } else if name == "lighten"@ {
        Some(5)
    } else if name == "colorDodge"@ {
        Some(6)
    } else if name == "colorBurn"@ {
        Some(7)
    } else if name == "hardLight"@ {
        Some(8)
    } else if name == "softLight"@ {
        Some(9)
    } else if name == "difference"@ {
        Some(10)
    } else if name == "exclusion"@ {
        Some(11)
    } else if name == "hue"@ {
        Some(12)
    } else if name == "saturation"@ {
        Some(13)
    } else if name == "color"@ {
        Some(14)
    } else if name == "luminosity"@ {
        Some(15)
    } else if name == "add"@ {
        Some(16)
    } else {
        None
    }
}

/// The number of the blend mode named `s`, if any.
pub fn parse_blend(s: &str) -> (r: Option<u8>)
    ensures
        r == blend_named(s@),
{
    if same_text(s, "normal") {
        Some(0)
    } else if same_text(s, "multiply") {
        Some(1)
    } else if same_text(s, "screen") {
        Some(2)
    } else if same_text(s, "overlay") {
        Some(3)
    } else if same_text(s, "darken") {
        Some(4)
    } else if same_text(s, "lighten") {
        Some(5)
    } else if same_text(s, "colorDodge") {
        Some(6)
    } else if same_text(s, "colorBurn") {
        Some(7)
    } else if same_text(s, "hardLight") {
        Some(8)
    } else if same_text(s, "softLight") {
        Some(9)
    } else if same_text(s, "difference") {
        Some(10)
    } else if same_text(s, "exclusion") {
        Some(11)
    } else if same_text(s, "hue") {
        Some(12)
    } else if same_text(s, "saturation") {
        Some(13)
    } else if same_text(s, "color") {
        Some(14)
    } else if same_text(s, "luminosity") {
        Some(15)
    } else if same_text(s, "add") {
        Some(16)
    } else {
        None
    }
}

} // verus!
