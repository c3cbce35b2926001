use cockpit_pacman_backend::text::{
    byte_len, concat3, contains, contains_char, decimal_string, ends_with, find, find_char_from,
    find_from, from_chars, is_ascii_alphanumeric, is_control, is_whitespace, join, lines,
    matches_at, numeral_string, octal_string, parse_signed, parse_unsigned, remove_all, replace_all,
    rfind, rfind_char_before, signed_decimal_string, slice_to_string, starts_with, str_contains,
    to_chars, to_lowercase, trim, trim_range,
};

fn c(s: &str) -> Vec<char> {
    s.chars().collect()
}

#[test]
fn chars_and_strings_round_trip() {
    assert_eq!(to_chars("a\u{e9}\u{1f600}"), vec!['a', '\u{e9}', '\u{1f600}']);
    assert_eq!(to_chars(""), Vec::<char>::new());
    assert_eq!(from_chars(&c("h\u{e9}llo")), "h\u{e9}llo");
    assert_eq!(slice_to_string(&c("hello"), 1, 3), "el");
    assert_eq!(slice_to_string(&c("hello"), 2, 2), "");
    assert_eq!(byte_len("a\u{e9}\u{1f600}"), 7);
    assert_eq!(cockpit_pacman_backend::text::concat("ab", "cd"), "abcd");
    assert_eq!(concat3("a", "", "c"), "ac");
}

#[test]
fn lowercase_is_unicode_lowercase() {
    assert_eq!(to_lowercase("ABC \u{c9}T\u{c9}"), "abc \u{e9}t\u{e9}");
    assert_eq!(to_lowercase("\u{130}"), "i\u{307}");
}

#[test]
fn search_finds_first_and_last_occurrences() {
    let hay = c("abcabcabc");
    assert_eq!(find(&hay, &c("bc")), Some(1));
    assert_eq!(rfind(&hay, &c("bc")), Some(7));
    assert_eq!(find_from(&hay, &c("bc"), 2), Some(4));
    assert_eq!(find_from(&hay, &c("bc"), 8), None);
    assert_eq!(find(&hay, &c("x")), None);
    assert_eq!(rfind(&hay, &c("abcabcabcd")), None);
    assert_eq!(find(&hay, &c("")), Some(0));
    assert_eq!(rfind(&hay, &c("")), Some(9));
    assert_eq!(find(&c(""), &c("")), Some(0));
    assert!(matches_at(&hay, &c("cab"), 2));
    assert!(!matches_at(&hay, &c("cab"), 3));
    assert!(!matches_at(&hay, &c("abc"), 7));
    assert!(contains(&hay, &c("cabc")));
    assert!(!contains(&hay, &c("cc")));
    assert!(str_contains("operation timeout occurred", "timeout"));
    assert!(!str_contains("time out", "timeout"));
    assert!(starts_with(&hay, &c("abca")));
    assert!(!starts_with(&hay, &c("bca")));
    assert!(ends_with(&hay, &c("cabc")));
    assert!(!ends_with(&hay, &c("ab")));
    assert!(!ends_with(&c("a"), &c("aa")));
    assert!(contains_char(&hay, 'c'));
    assert!(!contains_char(&hay, 'd'));
    assert_eq!(find_char_from(&hay, 'a', 1), Some(3));
    assert_eq!(find_char_from(&hay, 'a', 7), None);
    assert_eq!(rfind_char_before(&hay, 'a', 6), Some(3));
    assert_eq!(rfind_char_before(&hay, 'a', 0), None);
}

#[test]
fn character_classes() {
    for ch in ['\0', '\t', '\n', '\r', '\u{1f}', '\u{7f}', '\u{80}', '\u{9f}'] {
        assert!(is_control(ch), "{:?}", ch);
        assert_eq!(is_control(ch), ch.is_control());
    }
    for ch in [' ', 'a', '\u{a0}', '\u{20ac}'] {
        assert!(!is_control(ch), "{:?}", ch);
    }
    // The library's classes agree with the standard ones on every character.
    for code in 0..=0x10FFFFu32 {
        if let Some(ch) = char::from_u32(code) {
            assert_eq!(is_control(ch), ch.is_control(), "{:x}", code);
            assert_eq!(is_whitespace(ch), ch.is_whitespace(), "{:x}", code);
            assert_eq!(is_ascii_alphanumeric(ch), ch.is_ascii_alphanumeric(), "{:x}", code);
        }
    }
}

#[test]
fn trimming_takes_white_space_from_both_ends() {
    assert_eq!(trim("  a b \n"), "a b");
    assert_eq!(trim("\u{3000}x\u{a0}"), "x");
    assert_eq!(trim("   "), "");
    assert_eq!(trim(""), "");
    assert_eq!(trim_range(&c("[  ab  ]"), 1, 7), "ab");
    for s in ["", " ", "a", " a", "a ", " a b ", "\t\r\n x \u{2003}", "\u{200b} a"] {
        assert_eq!(trim(s), s.trim(), "{:?}", s);
    }
}

#[test]
fn numerals_are_exact() {
    assert_eq!(decimal_string(0), "0");
    assert_eq!(decimal_string(7), "7");
    assert_eq!(decimal_string(10), "10");
    assert_eq!(decimal_string(1234567890), "1234567890");
    assert_eq!(decimal_string(u64::MAX), "18446744073709551615");
    assert_eq!(octal_string(0), "0");
    assert_eq!(octal_string(0o755), "755");
    assert_eq!(octal_string(8), "10");
    assert_eq!(numeral_string(5, 2), "101");
    assert_eq!(signed_decimal_string(0), "0");
    assert_eq!(signed_decimal_string(-1), "-1");
    assert_eq!(signed_decimal_string(255), "255");
    assert_eq!(signed_decimal_string(i64::MIN), "-9223372036854775808");
    assert_eq!(signed_decimal_string(i64::MAX), "9223372036854775807");
}

#[test]
fn numbers_are_read_as_the_standard_library_reads_them() {
    for s in [
        "0", "7", "+7", "007", "18446744073709551615", "18446744073709551616", "", "+", "-1", "1a",
        " 1", "1 ", "++1", "99999999999999999999999", "١٢٣",
    ] {
        assert_eq!(parse_unsigned(s), s.parse::<u64>().ok(), "{:?}", s);
    }
    for s in [
        "0", "-0", "+0", "-1", "1", "9223372036854775807", "9223372036854775808",
        "-9223372036854775808", "-9223372036854775809", "", "-", "+", "-+1", "+-1", "1-", " 1",
        "1704067200",
    ] {
        assert_eq!(parse_signed(s), s.parse::<i64>().ok(), "{:?}", s);
    }
    assert_eq!(parse_unsigned("150000"), Some(150000));
    assert_eq!(parse_signed("-42"), Some(-42));
}

#[test]
fn replacing_and_removing_scan_from_the_left() {
    assert_eq!(from_chars(&remove_all(&c("a$repob$repo"), &c("$repo"))), "ab");
    assert_eq!(from_chars(&remove_all(&c("aaa"), &c("aa"))), "a");
    assert_eq!(from_chars(&remove_all(&c("abc"), &c("x"))), "abc");
    assert_eq!(from_chars(&replace_all(&c("$repo/os/$arch"), &c("$repo"), &c("core"))), "core/os/$arch");
    assert_eq!(from_chars(&replace_all(&c("aaaa"), &c("aa"), &c("b"))), "bb");
    assert_eq!(from_chars(&replace_all(&c("aaa"), &c("a"), &c("aa"))), "aaaaaa");
    assert_eq!(from_chars(&replace_all(&c(""), &c("a"), &c("b"))), "");
    for (s, pat, with) in [("abcabc", "bc", "x"), ("xxx", "xx", "y"), ("hello", "l", ""), ("a", "ab", "c")] {
        assert_eq!(from_chars(&replace_all(&c(s), &c(pat), &c(with))), s.replace(pat, with));
    }
}

#[test]
fn joining_and_lines() {
    let parts = vec!["a".to_string(), "b".to_string(), "c".to_string()];
    assert_eq!(join(&parts, ", "), "a, b, c");
    assert_eq!(join(&vec!["a".to_string()], ", "), "a");
    assert_eq!(join(&vec![], ", "), "");
    assert_eq!(join(&vec!["".to_string(), "".to_string()], "-"), "-");
    for s in ["", "a", "a\n", "a\nb", "a\r\nb\r\n", "\n", "\n\n", "a\r", "a\rb\n", "\r\n", "a\n\nb", "a\r\r\n"] {
        let want: Vec<String> = s.lines().map(|l| l.to_string()).collect();
        assert_eq!(lines(s), want, "{:?}", s);
    }
}
