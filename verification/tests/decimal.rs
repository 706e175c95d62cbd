use whitespace::decimal::read_number;

#[test]
fn plain_numbers_are_read() {
    assert_eq!(read_number("0"), Some(0));
    assert_eq!(read_number("7"), Some(7));
    assert_eq!(read_number("42"), Some(42));
    assert_eq!(read_number("-42"), Some(-42));
    assert_eq!(read_number("+42"), Some(42));
    assert_eq!(read_number("-0"), Some(0));
    assert_eq!(read_number("007"), Some(7));
}

#[test]
fn white_space_at_both_ends_is_ignored() {
    assert_eq!(read_number("12\n"), Some(12));
    assert_eq!(read_number("  12\r\n"), Some(12));
    assert_eq!(read_number("\t-5 \n"), Some(-5));
    assert_eq!(read_number("\u{a0}\u{2003}8\u{3000}\u{85}"), Some(8));
}

#[test]
fn the_limits_of_32_bits_are_read() {
    assert_eq!(read_number("2147483647"), Some(i32::MAX));
    assert_eq!(read_number("-2147483648"), Some(i32::MIN));
    assert_eq!(read_number("+2147483647"), Some(i32::MAX));
    assert_eq!(read_number("0000000002147483647"), Some(i32::MAX));
}

#[test]
fn numbers_beyond_32_bits_are_not_read() {
    assert_eq!(read_number("2147483648"), None);
    assert_eq!(read_number("-2147483649"), None);
    assert_eq!(read_number("99999999999999999999999999"), None);
    assert_eq!(read_number("-99999999999999999999999999"), None);
}

#[test]
fn other_texts_are_not_read() {
    for line in [
        "", "\n", "   ", "+", "-", "+-1", "--1", "1 2", "12a", "a12", "1.5", "1_000", "0x10", "١٢",
        "- 1", "1-", "\u{200b}1",
    ] {
        assert_eq!(read_number(line), None, "{line:?}");
    }
}

#[test]
fn reading_agrees_with_the_standard_library() {
    for line in [
        "0", "-1", " 15 ", "+3", "2147483647", "2147483648", "-2147483648", "-2147483649", "", " ",
        "+", "-", "12x", "\u{2028}77\u{2029}", "\u{1680}-9\u{202f}\u{205f}", "\u{b}\u{c}6", "٣",
        "1\u{a0}2",
    ] {
        assert_eq!(read_number(line), line.trim().parse::<i32>().ok(), "{line:?}");
    }
}
