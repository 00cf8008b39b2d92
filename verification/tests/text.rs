use steam_rs::text::{
    chars_of, hex_digit, hex_digit_value, push_decimal, same_text, string_of,
};

fn decimal(n: u64) -> String {
    let mut out = String::new();
    push_decimal(&mut out, n);
    out
}

#[test]
fn decimal_notation_of_numbers() {
    assert_eq!(decimal(0), "0");
    assert_eq!(decimal(7), "7");
    assert_eq!(decimal(10), "10");
    assert_eq!(decimal(1009), "1009");
    assert_eq!(decimal(76561197960435530), "76561197960435530");
    assert_eq!(decimal(u64::MAX), "18446744073709551615");
}

#[test]
fn decimal_notation_is_appended() {
    let mut out = "v".to_string();
    push_decimal(&mut out, 1);
    assert_eq!(out, "v1");
}

#[test]
fn hex_digits_are_upper_case() {
    let digits: String = (0u8..16).map(hex_digit).collect();
    assert_eq!(digits, "0123456789ABCDEF");
}

#[test]
fn hex_digit_values_of_both_cases() {
    assert_eq!(hex_digit_value('0'), Some(0));
    assert_eq!(hex_digit_value('9'), Some(9));
    assert_eq!(hex_digit_value('A'), Some(10));
    assert_eq!(hex_digit_value('F'), Some(15));
    assert_eq!(hex_digit_value('a'), Some(10));
    assert_eq!(hex_digit_value('f'), Some(15));
}

#[test]
fn hex_digit_values_of_other_characters() {
    for c in ['/', ':', '@', 'G', '`', 'g', ' ', 'é', '٣'] {
        assert_eq!(hex_digit_value(c), None);
    }
}

#[test]
fn chars_of_a_text() {
    assert_eq!(chars_of("aé😀"), vec!['a', 'é', '😀']);
    assert_eq!(chars_of(""), Vec::<char>::new());
}

#[test]
fn string_of_a_range_of_characters() {
    let chars = vec!['a', 'é', '😀', 'b'];
    assert_eq!(string_of(&chars, 1, 3), "é😀");
    assert_eq!(string_of(&chars, 0, 4), "aé😀b");
    assert_eq!(string_of(&chars, 2, 2), "");
}

#[test]
fn same_text_compares_characters() {
    assert!(same_text("abc", "abc"));
    assert!(same_text("", ""));
    assert!(!same_text("abc", "abd"));
    assert!(!same_text("abc", "ab"));
    assert!(!same_text("é", "e"));
}
