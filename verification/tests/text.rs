use window_actions::text::{decimal_string, decode_trimmed};

#[test]
fn decimal_of_zero() {
    assert_eq!(decimal_string(0), "0");
}

#[test]
fn decimal_of_small_and_large_numbers() {
    assert_eq!(decimal_string(7), "7");
    assert_eq!(decimal_string(10), "10");
    assert_eq!(decimal_string(4096), "4096");
    assert_eq!(decimal_string(u64::MAX), "18446744073709551615");
}

#[test]
fn decode_trimmed_removes_surrounding_white_space() {
    assert_eq!(decode_trimmed(b"  42 \n"), Some("42".to_string()));
    assert_eq!(decode_trimmed(b"\t a b \r\n"), Some("a b".to_string()));
}

#[test]
fn decode_trimmed_keeps_unicode_and_trims_unicode_space() {
    assert_eq!(decode_trimmed("\u{3000}é\u{a0}".as_bytes()), Some("é".to_string()));
}

#[test]
fn decode_trimmed_refuses_invalid_utf8() {
    assert_eq!(decode_trimmed(&[0x34, 0xff, 0x32]), None);
}

#[test]
fn decode_trimmed_of_only_white_space_is_empty() {
    assert_eq!(decode_trimmed(b" \t\r\n "), Some(String::new()));
    assert_eq!(decode_trimmed(b""), Some(String::new()));
}
