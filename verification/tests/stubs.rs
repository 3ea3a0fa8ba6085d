use dotlottie::stubs::atoi;

#[test]
fn atoi_reads_a_signed_integer() {
    assert_eq!(atoi("42"), 42);
    assert_eq!(atoi("0042"), 42);
    assert_eq!(atoi("+5"), 5);
    assert_eq!(atoi("  -17abc"), -17);
    assert_eq!(atoi("\t\n 7"), 7);
    assert_eq!(atoi("2147483647"), 2147483647);
    assert_eq!(atoi("-2147483648"), -2147483648);
}

#[test]
fn atoi_gives_zero_for_what_does_not_read() {
    assert_eq!(atoi(""), 0);
    assert_eq!(atoi("abc"), 0);
    assert_eq!(atoi("-"), 0);
    assert_eq!(atoi("12 34"), 0);
    assert_eq!(atoi("1e5"), 0);
    assert_eq!(atoi("2147483648"), 0);
}

#[test]
fn atoi_keeps_the_first_eleven_bytes() {
    // Eleven digits do not fit an i32.
    assert_eq!(atoi("12345678901234"), 0);
    assert_eq!(atoi("   -1234567890123"), -1234567890);
    // The eleventh byte falls inside a character: the whole text is read,
    // and the trailing character dropped.
    assert_eq!(atoi("1234567890\u{20ac}"), 1234567890);
}
