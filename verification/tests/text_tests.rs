use iws::text::{
    chars_of, count_nonempty_lines, decimal_string, hidden_name, join, owned, parse_decimal,
    same_text, starts_with, strip_prefix_or_keep_str, trimmed, white_space_char,
};

#[test]
fn trims_ascii_and_unicode_whitespace() {
    assert_eq!(trimmed("  main\n"), "main");
    assert_eq!(trimmed("\u{3000}\u{a0}x y\t\r\n"), "x y");
    assert_eq!(trimmed("   "), "");
    assert_eq!(trimmed(""), "");
    assert_eq!(trimmed("a"), "a");
}

#[test]
fn trim_is_idempotent_on_examples() {
    for s in ["  a b  ", "\n\nx", "y\u{2028}", ""] {
        let once = trimmed(s);
        assert_eq!(trimmed(&once), once);
        assert_eq!(once, s.trim());
    }
}

#[test]
fn whitespace_matches_std() {
    for u in 0u32..0x3100 {
        if let Some(c) = char::from_u32(u) {
            assert_eq!(white_space_char(c), c.is_whitespace(), "{:x}", u);
        }
    }
}

#[test]
fn decimal_renders_numbers() {
    assert_eq!(decimal_string(0), "0");
    assert_eq!(decimal_string(7), "7");
    assert_eq!(decimal_string(10), "10");
    assert_eq!(decimal_string(1234567890), "1234567890");
    assert_eq!(decimal_string(usize::MAX), usize::MAX.to_string());
}

#[test]
fn parse_matches_std() {
    for s in ["0", "42", "+7", "", "+", "-1", "12a", " 3", "007", "18446744073709551615", "18446744073709551616", "99999999999999999999"] {
        assert_eq!(parse_decimal(s), s.parse::<usize>().ok(), "{:?}", s);
    }
}

#[test]
fn decimal_reads_back() {
    for n in [0usize, 1, 9, 10, 99, 100, 123456, usize::MAX] {
        assert_eq!(parse_decimal(&decimal_string(n)), Some(n));
    }
}

#[test]
fn counts_nonempty_lines_like_std() {
    for s in [
        "", "\n", "a", "a\n", "a\nb", "a\n\nb\n", " M x\n?? y\n", "\r\n", "\r", "a\r\n\r\nb", "\n\n\n", "x\r",
    ] {
        let expected = s.lines().filter(|l| !l.is_empty()).count();
        assert_eq!(count_nonempty_lines(s), expected, "{:?}", s);
    }
}

#[test]
fn final_line_ending_is_optional() {
    for s in ["a", "a\nb", "", "x\n", "a\r"] {
        let with = format!("{}\n", s);
        assert_eq!(count_nonempty_lines(&with), count_nonempty_lines(s));
    }
    // A lone carriage return after the last line ending is stripped by the ending.
    assert_eq!(count_nonempty_lines("\r"), 1);
    assert_eq!(count_nonempty_lines("\r\n"), 0);
}

#[test]
fn prefixes() {
    assert!(starts_with("origin/main", "origin/"));
    assert!(!starts_with("main", "origin/"));
    assert_eq!(strip_prefix_or_keep_str("origin/main", "origin/"), "main");
    assert_eq!(strip_prefix_or_keep_str("upstream/dev", "origin/"), "upstream/dev");
    assert!(hidden_name(".git"));
    assert!(!hidden_name("backend"));
    assert!(!hidden_name(""));
}

#[test]
fn joins_and_compares() {
    let parts = vec![owned("a"), owned("b"), owned("c")];
    assert_eq!(join(&parts, ", "), "a, b, c");
    assert_eq!(join(&Vec::new(), ", "), "");
    assert!(same_text("x", "x"));
    assert!(!same_text("x", "xy"));
    assert_eq!(chars_of("héllo"), vec!['h', 'é', 'l', 'l', 'o']);
}
