use file_sync::text::{
    chars_le, append, contains, decimal, ends_with, from_chars, is_text, parse_unsigned,
    replace_char, same_text, split, split_once, starts_with, to_chars, trim, trim_end, trim_start,
    CharClass,
};

#[test]
fn numbers_are_written_in_decimal() {
    assert_eq!(decimal(0), "0");
    assert_eq!(decimal(7), "7");
    assert_eq!(decimal(44445), "44445");
    assert_eq!(decimal(18446744073709551615), "18446744073709551615");
}

#[test]
fn numbers_are_read_from_decimal() {
    assert_eq!(parse_unsigned("0", 9), Some(0));
    assert_eq!(parse_unsigned("+7", 9), Some(7));
    assert_eq!(parse_unsigned("0010", 65535), Some(10));
    assert_eq!(parse_unsigned("65535", 65535), Some(65535));
    assert_eq!(parse_unsigned("65536", 65535), None);
    assert_eq!(parse_unsigned("18446744073709551615", u64::MAX), Some(u64::MAX));
    assert_eq!(parse_unsigned("18446744073709551616", u64::MAX), None);
    assert_eq!(parse_unsigned("", 9), None);
    assert_eq!(parse_unsigned("+", 9), None);
    assert_eq!(parse_unsigned("-1", 9), None);
    assert_eq!(parse_unsigned(" 1", 9), None);
    assert_eq!(parse_unsigned("1x", 99), None);
}

#[test]
fn written_numbers_are_read_back() {
    for n in [0, 1, 9, 10, 99, 100, 123456789, u64::MAX] {
        assert_eq!(parse_unsigned(&decimal(n), u64::MAX), Some(n));
    }
}

#[test]
fn texts_are_searched() {
    assert!(starts_with("Public/a", "Public/"));
    assert!(!starts_with("Publ", "Public/"));
    assert!(starts_with("a", ""));
    assert!(ends_with("a.mysync_partial", ".mysync_partial"));
    assert!(!ends_with("l", ".mysync_partial"));
    assert!(contains("xxREFRESHyy", "REFRESH"));
    assert!(contains("REFRESH", "REFRESH"));
    assert!(!contains("REFRES", "REFRESH"));
    assert!(contains("", ""));
    assert!(contains("a", ""));
}

#[test]
fn texts_are_compared() {
    assert!(same_text("権限", "権限"));
    assert!(!same_text("a", "ab"));
    assert!(!same_text("ab", "a"));
    assert!(is_text(&Some("x".to_string()), "x"));
    assert!(!is_text(&Some("x".to_string()), "y"));
    assert!(!is_text(&None, ""));
}

#[test]
fn texts_are_put_together_and_replaced() {
    assert_eq!(append("a", "b"), "ab");
    assert_eq!(append("", ""), "");
    assert_eq!(replace_char("a\\b\\c", '\\', '/'), "a/b/c");
    let chars = to_chars("権限x");
    assert_eq!(chars, vec!['権', '限', 'x']);
    assert_eq!(from_chars(&chars, 1, 3), "限x");
}

#[test]
fn texts_are_trimmed() {
    assert_eq!(trim(" \t\r\n a b \u{3000}\n", CharClass::Whitespace), "a b");
    assert_eq!(trim_start("/\\/a/", CharClass::PathSeparator), "a/");
    assert_eq!(trim_end("//a//", CharClass::Slash), "//a");
    assert_eq!(trim("/a/b/", CharClass::Slash), "a/b");
    assert_eq!(trim("///", CharClass::Slash), "");
    assert_eq!(trim("\\a", CharClass::Slash), "\\a");
}

#[test]
fn white_space_is_what_the_standard_library_takes_for_it() {
    for n in 0..0x11_0000u32 {
        if let Some(c) = char::from_u32(n) {
            assert_eq!(CharClass::Whitespace.contains(c), c.is_whitespace(), "{:x}", n);
        }
    }
}

#[test]
fn trimming_twice_is_trimming_once() {
    let once = trim("  x y  ", CharClass::Whitespace);
    assert_eq!(trim(&once, CharClass::Whitespace), once);
}

#[test]
fn texts_are_split() {
    assert_eq!(split("a,b,,c", ','), vec!["a", "b", "", "c"]);
    assert_eq!(split("", ','), vec![""]);
    assert_eq!(split_once("a/b/c", '/'), Some(("a".to_string(), "b/c".to_string())));
    assert_eq!(split_once("abc", '/'), None);
}

#[test]
fn texts_are_ordered() {
    let le = |a: &str, b: &str| chars_le(&to_chars(a), &to_chars(b));
    assert!(le("", ""));
    assert!(le("", "a"));
    assert!(!le("a", ""));
    assert!(le("a", "ab"));
    assert!(!le("b", "ab"));
    assert!(le("a/b", "a0"));
    assert!(le("Z", "a"));
    assert!(le("z", "あ"));
}
