use pdf2txt_precedent::decimal::{format_decimal, parse_usize};

#[test]
fn digits_are_read_as_a_number() {
    assert_eq!(parse_usize("0"), Some(0));
    assert_eq!(parse_usize("12"), Some(12));
    assert_eq!(parse_usize("007"), Some(7));
    assert_eq!(parse_usize("+5"), Some(5));
}

#[test]
fn other_text_is_no_number() {
    assert_eq!(parse_usize(""), None);
    assert_eq!(parse_usize("+"), None);
    assert_eq!(parse_usize("-1"), None);
    assert_eq!(parse_usize("12a"), None);
    assert_eq!(parse_usize(" 12"), None);
    assert_eq!(parse_usize("1_000"), None);
    assert_eq!(parse_usize("++1"), None);
    assert_eq!(parse_usize("\u{661}\u{662}"), None);
}

#[test]
fn largest_number_is_read_and_the_next_is_not() {
    let largest = usize::MAX.to_string();
    assert_eq!(parse_usize(&largest), Some(usize::MAX));
    let mut next = largest.clone();
    next.push('0');
    assert_eq!(parse_usize(&next), None);
    assert_eq!(parse_usize("99999999999999999999999999999999999999999"), None);
    assert_eq!(parse_usize("99999999999999999999999999999999999999999x"), None);
}

#[test]
fn reading_agrees_with_std() {
    let samples = [
        "", "+", "-", "0", "+0", "-0", "00", "42", "+42", "4 2", "42 ", "0x10", "１２",
        "18446744073709551615", "18446744073709551616", "000018446744073709551615",
    ];
    for sample in samples {
        assert_eq!(parse_usize(sample), sample.parse::<usize>().ok(), "{:?}", sample);
    }
}

#[test]
fn numbers_are_written_without_leading_zeros() {
    assert_eq!(format_decimal(0), "0");
    assert_eq!(format_decimal(7), "7");
    assert_eq!(format_decimal(10), "10");
    assert_eq!(format_decimal(1475), "1475");
    assert_eq!(format_decimal(u64::MAX), "18446744073709551615");
}

#[test]
fn written_numbers_are_read_back() {
    for n in [0usize, 1, 9, 10, 99, 100, 12345, usize::MAX] {
        assert_eq!(parse_usize(&format_decimal(n as u64)), Some(n));
    }
}
