use single_sign::notation::{append_decimal, append_hex, push_decimal};
use single_sign::primitives::{append_bytes, bytes_equal};
use single_sign::text::{text_of_bytes, utf8_width};

fn decimal(n: usize) -> String {
    let mut out = String::new();
    append_decimal(n, &mut out);
    out
}

#[test]
fn decimal_text_of_small_and_large_numbers() {
    assert_eq!(decimal(0), "0");
    assert_eq!(decimal(7), "7");
    assert_eq!(decimal(10), "10");
    assert_eq!(decimal(1234), "1234");
    assert_eq!(decimal(90_000_001), "90000001");
    assert_eq!(decimal(usize::MAX), usize::MAX.to_string());
}

#[test]
fn decimal_digits_are_appended() {
    let mut out = b"len=".to_vec();
    push_decimal(305, &mut out);
    assert_eq!(out, b"len=305".to_vec());
    push_decimal(0, &mut out);
    assert_eq!(out, b"len=3050".to_vec());
    let mut max = Vec::new();
    push_decimal(usize::MAX, &mut max);
    assert_eq!(max, usize::MAX.to_string().into_bytes());
}

#[test]
fn hex_text_is_lower_case_two_digits_a_byte() {
    let mut out = String::from("0x");
    append_hex(&[0x00, 0x0f, 0xa0, 0xff, 0x5c], &mut out);
    assert_eq!(out, "0x000fa0ff5c");
    let mut empty = String::new();
    append_hex(&[], &mut empty);
    assert_eq!(empty, "");
}

#[test]
fn bytes_are_compared_and_appended() {
    assert!(bytes_equal(b"abc", b"abc"));
    assert!(!bytes_equal(b"abc", b"abd"));
    assert!(!bytes_equal(b"abc", b"ab"));
    assert!(bytes_equal(b"", b""));
    let mut out = b"ab".to_vec();
    append_bytes(&mut out, b"cd");
    assert_eq!(out, b"abcd".to_vec());
}

#[test]
fn width_of_characters_in_utf8() {
    assert_eq!(utf8_width('a'), 1);
    assert_eq!(utf8_width('\u{7f}'), 1);
    assert_eq!(utf8_width('\u{80}'), 2);
    assert_eq!(utf8_width('é'), 2);
    assert_eq!(utf8_width('\u{7ff}'), 2);
    assert_eq!(utf8_width('\u{800}'), 3);
    assert_eq!(utf8_width('€'), 3);
    assert_eq!(utf8_width('\u{ffff}'), 3);
    assert_eq!(utf8_width('\u{10000}'), 4);
    assert_eq!(utf8_width('😀'), 4);
    for c in ['a', 'é', '€', '😀', '\u{d7ff}', '\u{e000}', '\u{10ffff}'] {
        assert_eq!(utf8_width(c), c.len_utf8());
    }
}

#[test]
fn only_well_formed_utf8_is_text() {
    assert_eq!(text_of_bytes(b"plain"), Some("plain"));
    assert_eq!(text_of_bytes("é€😀".as_bytes()), Some("é€😀"));
    assert_eq!(text_of_bytes(b""), Some(""));
    assert_eq!(text_of_bytes(&[0xff]), None);
    assert_eq!(text_of_bytes(&[0xc3]), None);
    assert_eq!(text_of_bytes(&[0xc0, 0x80]), None);
    assert_eq!(text_of_bytes(&[0xed, 0xa0, 0x80]), None);
    assert_eq!(text_of_bytes(&[0xf4, 0x90, 0x80, 0x80]), None);
}
