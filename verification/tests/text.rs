use anime4k_build::text::{
    chars_of, contains, decimal, find_char, has_at, join, parse_u32, split_lines, starts_with,
    string_of, strip_prefix, trim,
};

#[test]
fn lines_split_at_line_feeds() {
    assert_eq!(split_lines(""), Vec::<String>::new());
    assert_eq!(split_lines("a"), vec!["a"]);
    assert_eq!(split_lines("a\n"), vec!["a"]);
    assert_eq!(split_lines("a\n\nb"), vec!["a", "", "b"]);
    assert_eq!(split_lines("\n"), vec![""]);
    assert_eq!(split_lines("a\r\nb\r\n"), vec!["a", "b"]);
}

#[test]
fn lines_keep_a_carriage_return_that_ends_no_line() {
    assert_eq!(split_lines("a\rb\n"), vec!["a\rb"]);
    assert_eq!(split_lines("a\r"), vec!["a\r"]);
    assert_eq!(split_lines("a\r\r\n"), vec!["a\r"]);
    assert_eq!(split_lines("\r\n"), vec![""]);
}

#[test]
fn lines_agree_with_std() {
    for text in ["", "x", "x\ny", "x\r\ny\r", "\n\n", "a\r\n\r\nb\n", "é\nλ"] {
        let expected: Vec<String> = text.lines().map(|line| line.to_string()).collect();
        assert_eq!(split_lines(text), expected);
    }
}

#[test]
fn prefixes() {
    assert!(starts_with("//!DESC x", "//!DESC "));
    assert!(!starts_with("//!DESC", "//!DESC "));
    assert!(starts_with("abc", ""));
    assert!(starts_with("", ""));
    assert!(!starts_with("", "a"));
    assert_eq!(strip_prefix("//!BIND MAIN", "//!BIND "), Some("MAIN".to_string()));
    assert_eq!(strip_prefix("//!BIND ", "//!BIND "), Some(String::new()));
    assert_eq!(strip_prefix("/!BIND MAIN", "//!BIND "), None);
}

#[test]
fn substrings() {
    assert!(contains("Anime4K-v4-Conv-4x3x3x3", "-Conv-"));
    assert!(!contains("Anime4K-v4-Conv", "-Conv-"));
    assert!(contains("abc", ""));
    assert!(contains("", ""));
    assert!(contains("abc", "c"));
    assert!(!contains("ab", "abc"));
    let text: Vec<char> = "hello".chars().collect();
    let part: Vec<char> = "llo".chars().collect();
    assert!(has_at(&text, 2, &part));
    assert!(!has_at(&text, 3, &part));
    assert!(has_at(&text, 5, &[]));
}

#[test]
fn trimming_takes_white_space_off_both_ends() {
    assert_eq!(trim("  a b \t\r\n"), "a b");
    assert_eq!(trim(""), "");
    assert_eq!(trim(" \u{3000}\u{a0} "), "");
    assert_eq!(trim("\u{2003}x\u{85}"), "x");
    assert_eq!(trim("\u{200b}x"), "\u{200b}x");
    for text in ["", " ", " x ", "\u{1680}x y\u{2028}", "\u{feff}x", "\u{180e}x"] {
        assert_eq!(trim(text), text.trim());
    }
}

#[test]
fn numbers_are_read_as_std_reads_them() {
    assert_eq!(parse_u32("0"), Some(0));
    assert_eq!(parse_u32("007"), Some(7));
    assert_eq!(parse_u32("+12"), Some(12));
    assert_eq!(parse_u32("4294967295"), Some(u32::MAX));
    assert_eq!(parse_u32("4294967296"), None);
    assert_eq!(parse_u32("99999999999999999999"), None);
    assert_eq!(parse_u32(""), None);
    assert_eq!(parse_u32("+"), None);
    assert_eq!(parse_u32("-1"), None);
    assert_eq!(parse_u32("++1"), None);
    assert_eq!(parse_u32("1 "), None);
    assert_eq!(parse_u32("1.0"), None);
    assert_eq!(parse_u32("١"), None);
    for text in ["42", "+0", "-0", "4294967295", "4294967300", "", "+", "a", "1a"] {
        assert_eq!(parse_u32(text), text.parse::<u32>().ok());
    }
}

#[test]
fn numbers_are_written_in_decimal() {
    assert_eq!(decimal(0), "0");
    assert_eq!(decimal(9), "9");
    assert_eq!(decimal(10), "10");
    assert_eq!(decimal(4294967295), "4294967295");
    assert_eq!(decimal(u64::MAX), "18446744073709551615");
    for n in [1u64, 99, 100, 12345] {
        assert_eq!(parse_u32(&decimal(n)), Some(n as u32));
    }
}

#[test]
fn joining() {
    assert_eq!(join(&Vec::new(), ", "), "");
    assert_eq!(join(&vec!["a".to_string()], ", "), "a");
    assert_eq!(join(&vec!["a".to_string(), "".to_string(), "c".to_string()], ", "), "a, , c");
}

#[test]
fn characters_and_slices() {
    assert_eq!(chars_of("aé"), vec!['a', 'é']);
    let text = chars_of("a/b/c");
    assert_eq!(find_char(&text, '/', 0), 1);
    assert_eq!(find_char(&text, '/', 2), 3);
    assert_eq!(find_char(&text, '/', 4), 5);
    assert_eq!(string_of(&text, 2, 5), "b/c");
    assert_eq!(string_of(&text, 3, 3), "");
}
