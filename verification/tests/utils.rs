use dotlottie::utils::base64_encode;

#[test]
fn test_basic_encoding() {
    let inputs_and_expected =
        vec![
            (b"hello", "aGVsbG8="),
            (b"world", "d29ybGQ="),
            (b"rusty", "cnVzdHk="),
        ];

    for (input, expected) in inputs_and_expected {
        assert_eq!(base64_encode(input), expected);
    }
}

#[test]
fn test_edge_cases() {
    // Test empty input
    assert_eq!(base64_encode(b""), "");

    // Test input length is a multiple of 3
    assert_eq!(base64_encode(b"abc"), "YWJj");

    // Test input length is not a multiple of 3
    assert_eq!(base64_encode(b"ab"), "YWI=");
    assert_eq!(base64_encode(b"a"), "YQ==");
}

#[test]
fn test_special_characters() {
    // Include numbers, plus, and slash which are part of the base64 character set
    assert_eq!(base64_encode(b"123+"), "MTIzKw==");
    assert_eq!(base64_encode(b"/456"), "LzQ1Ng==");
}

#[test]
fn test_large_input() {
    let large_input = vec![b'a'; 1000]; // 1000 'a's
                                        // This is a simplistic approach; a real test might validate the length or specific patterns in the output
    assert!(!base64_encode(&large_input).is_empty());
}

#[test]
fn test_known_values() {
    // Using known base64 encoded strings to validate against
    assert_eq!(base64_encode(b"OpenAI"), "T3BlbkFJ");
    assert_eq!(base64_encode(b"ChatGPT"), "Q2hhdEdQVA==");
}

#[test]
fn large_input_has_expected_length_and_prefix() {
    let large_input = vec![b'a'; 1000];
    let encoded = base64_encode(&large_input);
    assert_eq!(encoded.len(), 1336);
    assert!(encoded.starts_with("YWFhYWFhYWFhYWFhYWFh"));
    assert!(encoded.ends_with("YQ=="));
}

#[test]
fn all_symbols_of_the_alphabet() {
    assert_eq!(base64_encode(&[0x00, 0x10, 0x83]), "ABCD");
    assert_eq!(base64_encode(&[0xfb, 0xff, 0xbf]), "+/+/");
    assert_eq!(base64_encode(&[0xff]), "/w==");
}

#[test]
fn encoded_length_is_four_symbols_per_group() {
    for n in 0..20usize {
        let input = vec![b'x'; n];
        assert_eq!(base64_encode(&input).len(), 4 * ((n + 2) / 3));
    }
    assert_eq!(base64_encode(&vec![b'a'; 1000]).len(), 1336);
}

#[test]
fn whole_groups_encode_piece_by_piece() {
    let a = b"OpenAI";
    let b = b"ChatGPT";
    let mut ab = a.to_vec();
    ab.extend_from_slice(b);
    assert_eq!(base64_encode(&ab), format!("{}{}", base64_encode(a), base64_encode(b)));
}

fn decode(text: &str) -> Vec<u8> {
    let value = |c: u8| -> u32 {
        match c {
            b'A'..=b'Z' => (c - b'A') as u32,
            b'a'..=b'z' => (c - b'a') as u32 + 26,
            b'0'..=b'9' => (c - b'0') as u32 + 52,
            b'+' => 62,
            b'/' => 63,
            _ => 0,
        }
    };
    let mut out = Vec::new();
    for g in text.as_bytes().chunks(4) {
        let n = (value(g[0]) << 18) | (value(g[1]) << 12) | (value(g[2]) << 6) | value(g[3]);
        out.push((n >> 16) as u8);
        if g[2] != b'=' {
            out.push((n >> 8) as u8);
        }
        if g[3] != b'=' {
            out.push(n as u8);
        }
    }
    out
}

#[test]
fn encoding_decodes_back_with_padding_at_the_end() {
    for n in 0..40usize {
        let input: Vec<u8> = (0..n).map(|i| (i * 97 + 13) as u8).collect();
        let e = base64_encode(&input);
        let pad = (3 - n % 3) % 3;
        assert!(e[e.len() - pad..].chars().all(|c| c == '='));
        assert!(e[..e.len() - pad].chars().all(|c| c.is_ascii_alphanumeric() || c == '+' || c == '/'));
        assert_eq!(decode(&e), input);
    }
}
