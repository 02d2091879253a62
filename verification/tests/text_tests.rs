use aegis_guardian::text::{
    chars_of, contains_chars, find_char, i64_to_decimal, lines_of, parse_unsigned, rfind_char,
    str_contains, str_eq, str_starts_with, string_from_chars, u64_to_decimal,
};

fn lines(s: &str) -> Vec<String> {
    let cs = chars_of(s);
    lines_of(&cs).iter().map(|l| string_from_chars(l)).collect()
}

#[test]
fn decimal_formatting_matches_display() {
    assert_eq!(u64_to_decimal(0), "0");
    assert_eq!(u64_to_decimal(7), "7");
    assert_eq!(u64_to_decimal(1234567890), "1234567890");
    assert_eq!(u64_to_decimal(u64::MAX), u64::MAX.to_string());
    assert_eq!(i64_to_decimal(-42), "-42");
    assert_eq!(i64_to_decimal(i64::MIN), i64::MIN.to_string());
}

#[test]
fn parse_unsigned_follows_str_parse() {
    let p = |s: &str, max: u64| parse_unsigned(&chars_of(s), max);
    assert_eq!(p("8080", 65535), Some(8080));
    assert_eq!(p("+22", 65535), Some(22));
    assert_eq!(p("65535", 65535), Some(65535));
    assert_eq!(p("65536", 65535), None);
    assert_eq!(p("", 65535), None);
    assert_eq!(p("+", 65535), None);
    assert_eq!(p("-1", 65535), None);
    assert_eq!(p("12a", 65535), None);
    assert_eq!(p("4294967295", 4294967295), Some(4294967295));
    assert_eq!(p("99999999999999999999", 4294967295), None);
    for s in ["0", "+7", "17", "123456", "x", "", "+", "007"] {
        assert_eq!(p(s, 65535), s.parse::<u16>().ok().map(|v| v as u64), "input {s:?}");
    }
}

#[test]
fn decimal_then_parse_roundtrip() {
    for n in [0u64, 1, 9, 10, 99, 100, 65535, 4294967295] {
        let text = u64_to_decimal(n);
        assert_eq!(parse_unsigned(&chars_of(&text), 4294967295), Some(n));
    }
}

#[test]
fn lines_follow_str_lines() {
    for s in ["", "a", "a\n", "a\nb", "a\r\nb\r\n", "\n\n", "x\r", "p1\ncnode\nn*:3000\n"] {
        let expected: Vec<String> = s.lines().map(|l| l.to_string()).collect();
        assert_eq!(lines(s), expected, "input {s:?}");
    }
}

#[test]
fn searching() {
    assert!(str_contains("/usr/bin/wireshark-gtk", "wireshark"));
    assert!(!str_contains("shark", "wireshark"));
    assert!(str_contains("abc", ""));
    assert!(str_starts_with(".git", "."));
    assert!(!str_starts_with("git", "."));
    assert!(str_eq("nmap", "nmap"));
    assert!(!str_eq("nmap", "nmapx"));
    assert!(contains_chars(&chars_of("hello"), &chars_of("ll")));
    assert_eq!(find_char(&chars_of("a.b.c"), '.'), Some(1));
    assert_eq!(rfind_char(&chars_of("[::1]:8080"), ':'), Some(5));
    assert_eq!(rfind_char(&chars_of("abc"), ':'), None);
}
