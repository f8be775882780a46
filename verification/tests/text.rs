//! Texts, measured against the standard library.

use sjnmusic::text::{
    concat3, contains, decimal_fill, decimal_i64, decimal_u64, find_chars, is_alphanumeric,
    is_white_space, lower_char, parse_i64, parse_u64, replace_char, split_char, split_words,
    to_ascii_lower, to_lower, trim, trim_start,
};

fn all_chars() -> Vec<char> {
    (0..=0x10FFFFu32).filter_map(char::from_u32).collect()
}

#[test]
fn white_space_is_that_of_unicode() {
    for c in all_chars() {
        assert_eq!(is_white_space(c), c.is_whitespace(), "{:?}", c);
    }
}

#[test]
fn letters_and_digits_are_those_of_unicode() {
    for c in ['a', 'Z', '5', 'ß', 'é', '日', 'Ⅷ', '½', ' ', '-', '_', '\u{301}', '🎵'] {
        assert_eq!(is_alphanumeric(c), c.is_alphanumeric(), "{:?}", c);
    }
}

#[test]
fn ascii_lower_touches_ascii_only() {
    for c in ['A', 'Z', 'M', 'a', '@', '[', 'É', 'Σ'] {
        assert_eq!(lower_char(c), c.to_ascii_lowercase());
    }
    assert_eq!(to_ascii_lower("ÀbC dEF"), "Àbc def");
}

#[test]
fn lower_case_is_that_of_unicode() {
    assert_eq!(to_lower("HELLO World"), "hello world");
    assert_eq!(to_lower("ÄÖÜ ẞ"), "äöü ß");
    assert_eq!(to_lower("ΟΔΟΣ"), "οδος");
    assert_eq!(to_lower("İ"), "İ".to_lowercase());
}

#[test]
fn trimming_takes_white_space_off_the_ends() {
    for s in ["", "   ", " a b ", "\t\r\nx", "x\u{3000}", "\u{a0}né\u{2003}"] {
        assert_eq!(trim(s), s.trim());
        assert_eq!(trim_start(s), s.trim_start());
    }
}

#[test]
fn words_are_separated_by_white_space() {
    for s in ["", "  ", "one", " one  two\tthree ", "a\u{3000}b"] {
        let want: Vec<String> = s.split_whitespace().map(|w| w.to_string()).collect();
        assert_eq!(split_words(s), want);
    }
}

#[test]
fn splitting_keeps_empty_parts() {
    for s in ["", "a", "a,b", ",a,,b,", ",,"] {
        let want: Vec<String> = s.split(',').map(|w| w.to_string()).collect();
        assert_eq!(split_char(s, ','), want);
    }
}

#[test]
fn replacing_and_searching() {
    assert_eq!(replace_char("a+b+", '+', " "), "a b ");
    assert_eq!(replace_char("a/b", '/', "__"), "a__b");
    assert!(contains("a queue full of songs", "queue full"));
    assert!(!contains("a queue", "queue full"));
    assert!(contains("x", ""));
    let cs: Vec<char> = "/a/songs/3/songs/4".chars().collect();
    assert_eq!(find_chars(&cs, "/songs/"), Some(2));
    assert_eq!(find_chars(&cs, "nope"), None);
    assert_eq!(concat3("a", "", "bc"), "abc");
}

#[test]
fn numerals_are_written() {
    for n in [0u64, 9, 10, 99, 1234567890, u64::MAX] {
        assert_eq!(decimal_u64(n), n.to_string());
    }
    for n in [0i64, -1, 42, i64::MIN, i64::MAX] {
        assert_eq!(decimal_i64(n), n.to_string());
    }
    assert_eq!(decimal_fill(7, 2), "07");
    assert_eq!(decimal_fill(70, 2), "70");
    assert_eq!(decimal_fill(700, 2), "700");
    assert_eq!(decimal_fill(0, 4), "0000");
}

#[test]
fn numerals_are_read() {
    for s in ["0", "7", "+7", "007", "", "+", "-", "-1", " 1", "1 ", "1a", "18446744073709551615",
        "18446744073709551616", "99999999999999999999999"] {
        assert_eq!(parse_u64(s, u64::MAX), s.parse::<u64>().ok(), "{:?}", s);
    }
    for s in ["0", "-0", "-7", "+7", "--7", "-", "9223372036854775807", "9223372036854775808",
        "-9223372036854775808", "-9223372036854775809", "x"] {
        assert_eq!(parse_i64(s, i64::MAX), s.parse::<i64>().ok(), "{:?}", s);
    }
    for s in ["2147483647", "2147483648", "-2147483648", "-2147483649"] {
        assert_eq!(parse_i64(s, i32::MAX as i64), s.parse::<i32>().ok().map(|n| n as i64));
    }
}
