use aspirina::text::{
    byte_from_digits, chars_of, copy_range, digit_to_char, holds_at, is_whitespace, position_of,
    position_of_non_space, position_of_pattern, position_of_space, push_all, push_chars,
    push_decimal, push_hex, push_hex_two, push_str, same_chars, string_of, to_digit, trimmed,
};

fn chars(s: &str) -> Vec<char> {
    s.chars().collect()
}

fn every_char() -> Vec<char> {
    (0..=0x10FFFFu32).filter_map(char::from_u32).collect()
}

#[test]
fn white_space_is_the_unicode_property() {
    for c in every_char() {
        assert_eq!(is_whitespace(c), c.is_whitespace(), "U+{:04X}", c as u32);
    }
    assert!(is_whitespace(' '));
    assert!(is_whitespace('\t'));
    assert!(is_whitespace('\u{3000}'));
    assert!(!is_whitespace('\u{200B}'));
    assert!(!is_whitespace('a'));
}

#[test]
fn digits_are_those_of_the_radix() {
    for c in every_char() {
        assert_eq!(to_digit(c, 10), c.to_digit(10).map(|d| d as u8));
        assert_eq!(to_digit(c, 16), c.to_digit(16).map(|d| d as u8));
        assert_eq!(to_digit(c, 36), c.to_digit(36).map(|d| d as u8));
        assert_eq!(to_digit(c, 2), c.to_digit(2).map(|d| d as u8));
    }
    assert_eq!(to_digit('7', 10), Some(7));
    assert_eq!(to_digit('a', 16), Some(10));
    assert_eq!(to_digit('F', 16), Some(15));
    assert_eq!(to_digit('g', 16), None);
    assert_eq!(to_digit('a', 10), None);
}

#[test]
fn bytes_are_read_as_the_standard_library_reads_them() {
    let samples = [
        "", "+", "-", "0", "7", "+7", "-7", "++7", "007", "255", "256", "0255", "00000000255",
        "999", "1000", "a", "f", "F", "ff", "FF", "fg", "100", "0x1", "1 ", " 1", "1_0", "12a",
        "+ff", "+0", "٣", "１",
    ];
    for s in samples {
        assert_eq!(byte_from_digits(&chars(s), 10), s.parse::<u8>().ok(), "{:?} in base 10", s);
        assert_eq!(
            byte_from_digits(&chars(s), 16),
            u8::from_str_radix(s, 16).ok(),
            "{:?} in base 16",
            s
        );
    }
    for n in 0..1000u32 {
        let decimal = n.to_string();
        let hex = format!("{:x}", n);
        assert_eq!(byte_from_digits(&chars(&decimal), 10), decimal.parse::<u8>().ok());
        assert_eq!(byte_from_digits(&chars(&hex), 16), u8::from_str_radix(&hex, 16).ok());
    }
    for radix in 2..=36u8 {
        for s in ["0", "1", "10", "11111111", "100000000", "zz", "73", "+a9", "7z", "377", "400"] {
            assert_eq!(
                byte_from_digits(&chars(s), radix),
                u8::from_str_radix(s, radix as u32).ok(),
                "{:?} in base {}",
                s,
                radix
            );
        }
    }
    assert_eq!(byte_from_digits(&chars("255"), 10), Some(255));
    assert_eq!(byte_from_digits(&chars("256"), 10), None);
    assert_eq!(byte_from_digits(&chars("fF"), 16), Some(255));
}

#[test]
fn numbers_are_written_in_decimal_and_hexadecimal() {
    let samples = [0usize, 1, 9, 10, 15, 16, 99, 100, 255, 256, 4095, 65535, usize::MAX];
    for n in samples {
        let mut out = Vec::new();
        push_decimal(&mut out, n);
        assert_eq!(string_of(&out), format!("{}", n));
        let mut out = Vec::new();
        push_hex(&mut out, n);
        assert_eq!(string_of(&out), format!("{:X}", n));
        let mut out = Vec::new();
        push_hex_two(&mut out, n);
        assert_eq!(string_of(&out), format!("{:02X}", n));
    }
    let mut out = chars("n=");
    push_decimal(&mut out, 42);
    assert_eq!(string_of(&out), "n=42");
    let mut out = Vec::new();
    push_hex_two(&mut out, 11);
    assert_eq!(string_of(&out), "0B");
    for d in 0..16u8 {
        assert_eq!(digit_to_char(d), char::from_digit(d as u32, 16).unwrap().to_ascii_uppercase());
    }
}

#[test]
fn trimming_removes_white_space_at_both_ends() {
    let samples =
        ["", " ", "a", " a", "a ", "  a b  ", "\t\r\n x \u{00A0}\u{3000}", "\u{200B} a", "   "];
    for s in samples {
        assert_eq!(string_of(&trimmed(&chars(s))), s.trim(), "{:?}", s);
    }
    assert_eq!(string_of(&trimmed(&chars("  LDI 5 \r"))), "LDI 5");
}

#[test]
fn strings_and_characters_convert_both_ways() {
    for s in ["", "abc", "héllo ✓", "a\nb"] {
        assert_eq!(chars_of(s), chars(s));
        assert_eq!(string_of(&chars(s)), s);
    }
    let mut text = String::from("ab");
    push_chars(&mut text, &['c', 'd']);
    assert_eq!(text, "abcd");
    let mut out = vec!['x'];
    push_str(&mut out, "yz");
    push_all(&mut out, &['!', '?']);
    assert_eq!(out, vec!['x', 'y', 'z', '!', '?']);
    assert_eq!(copy_range(&chars("hello"), 1, 4), chars("ell"));
    assert_eq!(copy_range(&chars("hello"), 2, 2), chars(""));
    assert!(same_chars(&chars("abc"), &chars("abc")));
    assert!(!same_chars(&chars("abc"), &chars("abd")));
    assert!(!same_chars(&chars("abc"), &chars("ab")));
    assert!(same_chars(&[], &[]));
}

#[test]
fn searching_finds_the_first_place() {
    let text = chars("ab  cd;ef;");
    assert_eq!(position_of(&text, ';', 0), 6);
    assert_eq!(position_of(&text, ';', 7), 9);
    assert_eq!(position_of(&text, 'z', 0), 10);
    assert_eq!(position_of(&text, 'a', 10), 10);
    assert_eq!(position_of_space(&text, 0), 2);
    assert_eq!(position_of_space(&text, 4), 10);
    assert_eq!(position_of_non_space(&text, 2), 4);
    assert_eq!(position_of_non_space(&text, 0), 0);
    assert_eq!(position_of_non_space(&chars("   "), 0), 3);
    let pattern = chars(" = ");
    assert_eq!(position_of_pattern(&chars("a = b = c"), &pattern, 0), Some(1));
    assert_eq!(position_of_pattern(&chars("a = b = c"), &pattern, 2), Some(5));
    assert_eq!(position_of_pattern(&chars("a=b"), &pattern, 0), None);
    assert_eq!(position_of_pattern(&chars("="), &pattern, 0), None);
    assert!(holds_at(&chars("let x"), &chars("let "), 0));
    assert!(!holds_at(&chars("let"), &chars("let "), 0));
    assert!(holds_at(&chars("a = b"), &pattern, 1));
    assert!(!holds_at(&chars("a = b"), &pattern, 2));
    assert!(!holds_at(&chars("ab"), &pattern, 5));
}
