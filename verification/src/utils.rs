//! Base64 encoding.
use vstd::prelude::*;

use crate::text::string_of;

verus! {

/// The symbol for the six-bit value `i` in the standard base64 alphabet
/// (`A`–`Z`, `a`–`z`, `0`–`9`, `+`, `/`).
pub open spec fn base64_symbol(i: int) -> char {
    if i < 26 {
        (('A' as int) + i) as char
    } else if i < 52 {
        (('a' as int) + (i - 26)) as char
    } else if i < 62 {
        (('0' as int) + (i - 52)) as char
    } else if i == 62 {
        '+'
    } else {
        '/'
    }
}

/// The four symbols for a group of one to three bytes; missing bytes count
/// as zero, and the symbols that only they would fill become `=`.
pub open spec fn encode_group(g: Seq<u8>) -> Seq<char> {
    let b1 = g[0] as int;
    let b2 = if g.len() > 1 { g[1] as int } else { 0 };
    let b3 = if g.len() > 2 { g[2] as int } else { 0 };
    seq![
        base64_symbol(b1 / 4),
        base64_symbol((b1 % 4) * 16 + b2 / 16),
        if g.len() > 1 { base64_symbol((b2 % 16) * 4 + b3 / 64) } else { '=' },
        if g.len() > 2 { base64_symbol(b3 % 64) } else { '=' },
    ]
}

/// Base64 (standard alphabet, padded) of `plain`: one group of four symbols
/// for every three bytes, the last group padded with `=`.
pub open spec fn base64(plain: Seq<u8>) -> Seq<char>
    decreases plain.len(),
{
    if plain.len() == 0 {
        Seq::empty()
    } else if plain.len() <= 3 {
        encode_group(plain)
    } else {
        encode_group(plain.take(3)) + base64(plain.skip(3))
    }
}

/// The encoding is four symbols for every three bytes begun:
/// `4 * ceil(n / 3)` symbols for `n` bytes.
pub proof fn law_base64_length(plain: Seq<u8>)
    ensures
        base64(plain).len() == 4 * ((plain.len() + 2) / 3),
    decreases plain.len(),
{
    if plain.len() > 3 {
        law_base64_length(plain.skip(3));
    }
}

/// Input cut after a whole number of three-byte groups encodes piece by
/// piece: `base64(a + b) == base64(a) + base64(b)` when `a` has a multiple
/// of three bytes.
pub proof fn law_base64_concat(a: Seq<u8>, b: Seq<u8>)
    requires
        a.len() % 3 == 0,
    ensures
        base64(a + b) == base64(a) + base64(b),
    decreases a.len(),
{
    if a.len() == 0 {
        assert(a + b =~= b);
    } else {
        let ab = a + b;
        law_base64_concat(a.skip(3), b);
        assert(ab.take(3) =~= a.take(3));
        assert(ab.skip(3) =~= a.skip(3) + b);
        if a.len() == 3 {
            assert(a.skip(3) =~= Seq::<u8>::empty());
            assert(a.take(3) =~= a);
            if b.len() == 0 {
                assert(ab =~= a);
            }
        }
    }
}

/// The six-bit value a base64 symbol stands for; -1 for any other
/// character (`=` included).
pub open spec fn symbol_value(c: char) -> int {
    let k = c as int;
    if 'A' as int <= k <= 'Z' as int {
        k - 'A' as int
    } else if 'a' as int <= k <= 'z' as int {
        k - 'a' as int + 26
    } else if '0' as int <= k <= '9' as int {
        k - '0' as int + 52
    } else if c == '+' {
        62
    } else if c == '/' {
        63
    } else {
        -1
    }
}

/// The bytes a group of four symbols stands for: three, or fewer when the
/// group ends in `=`.
pub open spec fn decode_group(g: Seq<char>) -> Seq<u8> {
    let v0 = symbol_value(g[0]);
    let v1 = symbol_value(g[1]);
    let v2 = if g[2] == '=' { 0 } else { symbol_value(g[2]) };
    let v3 = if g[3] == '=' { 0 } else { symbol_value(g[3]) };
    let b1 = (v0 * 4 + v1 / 16) as u8;
    let b2 = ((v1 % 16) * 16 + v2 / 4) as u8;
    let b3 = ((v2 % 4) * 64 + v3) as u8;
    if g[2] == '=' {
        seq![b1]
    } else if g[3] == '=' {
        seq![b1, b2]
    } else {
        seq![b1, b2, b3]
    }
}

/// Standard base64 decoding of `text`, four symbols at a time.
pub open spec fn base64_decode(text: Seq<char>) -> Seq<u8>
    decreases text.len(),
{
    if text.len() < 4 {
        Seq::empty()
    } else {
        decode_group(text.take(4)) + base64_decode(text.skip(4))
    }
}

/// Every six-bit value has a symbol, and the symbol stands for that value.
pub proof fn lemma_symbol_value(i: int)
    requires
        0 <= i < 64,
    ensures
        symbol_value(base64_symbol(i)) == i,
        base64_symbol(i) != '=',
{
}

/// Decoding one encoded group gives its bytes back.
proof fn lemma_decode_group(g: Seq<u8>)
    requires
        1 <= g.len() <= 3,
    ensures
        decode_group(encode_group(g)) == g,
{
    let b1 = g[0] as int;
    let b2 = if g.len() > 1 { g[1] as int } else { 0 };
    let b3 = if g.len() > 2 { g[2] as int } else { 0 };
    assert(0 <= b1 / 4 < 64 && 0 <= (b1 % 4) * 16 + b2 / 16 < 64 && 0 <= (b2 % 16) * 4 + b3 / 64 < 64
        && 0 <= b3 % 64 < 64) by (nonlinear_arith)
        requires
            0 <= b1 < 256,
            0 <= b2 < 256,
            0 <= b3 < 256,
    ;
    lemma_symbol_value(b1 / 4);
    lemma_symbol_value((b1 % 4) * 16 + b2 / 16);
    lemma_symbol_value((b2 % 16) * 4 + b3 / 64);
    lemma_symbol_value(b3 % 64);
    assert((b1 / 4) * 4 + ((b1 % 4) * 16 + b2 / 16) / 16 == b1
        && (((b1 % 4) * 16 + b2 / 16) % 16) * 16 + ((b2 % 16) * 4 + b3 / 64) / 4 == b2
        && (((b2 % 16) * 4 + b3 / 64) % 4) * 64 + b3 % 64 == b3) by (nonlinear_arith)
        requires
            0 <= b1 < 256,
            0 <= b2 < 256,
            0 <= b3 < 256,
    ;
    let e = encode_group(g);
    let d = decode_group(e);
    if g.len() == 1 {
        assert(b2 == 0 && b3 == 0);
        assert(d =~= g);
    } else if g.len() == 2 {
        assert(b3 == 0);
        assert(d =~= g);
    } else {
        assert(d =~= g);
    }
}

/// Decoding gives back what was encoded.
pub proof fn law_base64_decodes_back(plain: Seq<u8>)
    ensures
        base64_decode(base64(plain)) == plain,
    decreases plain.len(),
{
    if plain.len() == 0 {
    } else if plain.len() <= 3 {
        lemma_decode_group(plain);
        let e = encode_group(plain);
        assert(base64(plain) == e);
        assert(e.take(4) =~= e);
        assert(e.skip(4) =~= Seq::<char>::empty());
        assert(base64_decode(e.skip(4)) == Seq::<u8>::empty());
        assert(base64_decode(e) == decode_group(e.take(4)) + base64_decode(e.skip(4)));
        assert(plain =~= plain + Seq::<u8>::empty());
    } else {
        law_base64_decodes_back(plain.skip(3));
        lemma_decode_group(plain.take(3));
        let e = encode_group(plain.take(3)) + base64(plain.skip(3));
        assert(base64(plain) == e);
        assert(base64_decode(e) == decode_group(e.take(4)) + base64_decode(e.skip(4)));
        assert(e.take(4) =~= encode_group(plain.take(3)));
        assert(e.skip(4) =~= base64(plain.skip(3)));
        assert(plain =~= plain.take(3) + plain.skip(3));
    }
}

/// The encoding is made of alphabet symbols, then `(3 - n % 3) % 3` padding
/// `=` signs at its end.
pub proof fn law_base64_padding(plain: Seq<u8>)
    ensures
        ({
            let e = base64(plain);
            let pad = (3 - plain.len() % 3) % 3;
            &&& pad <= e.len()
            &&& forall|i: int| 0 <= i < e.len() - pad ==> 0 <= #[trigger] symbol_value(e[i]) < 64
            &&& forall|i: int| e.len() - pad <= i < e.len() ==> #[trigger] e[i] == '='
        }),
    decreases plain.len(),
{
    let b1 = plain[0] as int;
    let b2 = if plain.len() > 1 { plain[1] as int } else { 0 };
    let b3 = if plain.len() > 2 { plain[2] as int } else { 0 };
    if plain.len() == 0 {
    } else {
        assert(0 <= b1 / 4 < 64 && 0 <= (b1 % 4) * 16 + b2 / 16 < 64 && 0 <= (b2 % 16) * 4 + b3 / 64 < 64
            && 0 <= b3 % 64 < 64) by (nonlinear_arith)
            requires
                0 <= b1 < 256,
                0 <= b2 < 256,
                0 <= b3 < 256,
        ;
        lemma_symbol_value(b1 / 4);
        lemma_symbol_value((b1 % 4) * 16 + b2 / 16);
        lemma_symbol_value((b2 % 16) * 4 + b3 / 64);
        lemma_symbol_value(b3 % 64);
        if plain.len() > 3 {
            law_base64_padding(plain.skip(3));
            law_base64_length(plain.skip(3));
            let g = encode_group(plain.take(3));
            let rest = base64(plain.skip(3));
            assert(plain.take(3)[0] == plain[0] && plain.take(3)[1] == plain[1] && plain.take(3)[2] == plain[2]);
            assert((plain.len() - 3) % 3 == plain.len() % 3);
            let e = base64(plain);
            assert(e == g + rest);
            assert forall|i: int| 0 <= i < e.len() - (3 - plain.len() % 3) % 3 implies 0 <= #[trigger] symbol_value(e[i]) < 64 by {
                if i >= 4 {
                    assert(e[i] == rest[i - 4]);
                }
            }
            assert forall|i: int| e.len() - (3 - plain.len() % 3) % 3 <= i < e.len() implies #[trigger] e[i] == '=' by {
                assert(e[i] == rest[i - 4]);
            }
        }
    }
}

/// The base64 symbol for a six-bit value.
fn symbol(i: u8) -> (c: char)
    requires
        i < 64,
    ensures
        c == base64_symbol(i as int),
{
    if i < 26 {
        (65u8 + i) as char
    } else if i < 52 {
        (97u8 + (i - 26)) as char
    } else if i < 62 {
        (48u8 + (i - 52)) as char
    } else if i == 62 {
        '+'
    } else {
        '/'
    }
}

/// Standard, padded base64 encoding of `plain`.
pub fn base64_encode(plain: &[u8]) -> (encoded: String)
    ensures
        encoded@ == base64(plain@),
{
    let mut out: Vec<char> = Vec::new();
    let n = plain.len();
    let mut i: usize = 0;
    assert(plain@.skip(0) == plain@);
    while i < n
        invariant
            n == plain@.len(),
            i <= n,
            base64(plain@) == out@ + base64(plain@.skip(i as int)),
        decreases n - i,
    {
        let len = if n - i >= 3 { 3 } else { n - i };
        let b1 = plain[i];
        let b2 = if len > 1 { plain[i + 1] } else { 0 };
        let b3 = if len > 2 { plain[i + 2] } else { 0 };
        let ghost g = plain@.skip(i as int).take(len as int);
        assert(g.len() == len);
        assert(g[0] == b1);
        assert(len > 1 ==> g[1] == b2);
        assert(len > 2 ==> g[2] == b3);
        assert(b1 >> 2 == b1 / 4 && b1 >> 2 < 64) by (bit_vector);
        assert((b1 & 0x03) << 4 | (b2 >> 4) == (b1 % 4) * 16 + b2 / 16 && (b1 & 0x03) << 4 | (b2
            >> 4) < 64) by (bit_vector);
        assert((b2 & 0x0f) << 2 | (b3 >> 6) == (b2 % 16) * 4 + b3 / 64 && (b2 & 0x0f) << 2 | (b3
            >> 6) < 64) by (bit_vector);
        assert(b3 & 0x3f == b3 % 64) by (bit_vector);
        let c1 = symbol(b1 >> 2);
        let c2 = symbol((b1 & 0x03) << 4 | (b2 >> 4));
        let c3 = if len > 1 {
            symbol((b2 & 0x0f) << 2 | (b3 >> 6))
        } else {
            '='
        };
        let c4 = if len > 2 {
            symbol(b3 & 0x3f)
        } else {
            '='
        };
        let ghost before = out@;
        out.push(c1);
        out.push(c2);
        out.push(c3);
        out.push(c4);
        proof {
            let rest = plain@.skip(i as int);
            assert(encode_group(g) == seq![c1, c2, c3, c4]);
            assert(out@ == before + encode_group(g));
            if rest.len() <= 3 {
                assert(g == rest);
                assert(plain@.skip(i + len) =~= Seq::<u8>::empty());
            } else {
                assert(rest.skip(3) == plain@.skip(i + 3));
            }
        }
        i = i + len;
    }
    assert(plain@.skip(n as int) =~= Seq::<u8>::empty());
    assert(out@ + Seq::<char>::empty() == out@);
    string_of(&out)
}

} // verus!
