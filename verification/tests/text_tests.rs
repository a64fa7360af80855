use codey::text::{
    blank, contains, decimal_string, join_strings, push_signed_decimal, same_text, split_lines,
    split_whitespace, trimmed,
};

#[test]
fn decimals() {
    assert_eq!(decimal_string(0), "0");
    assert_eq!(decimal_string(7), "7");
    assert_eq!(decimal_string(10), "10");
    assert_eq!(decimal_string(4096), "4096");
    assert_eq!(decimal_string(u64::MAX), "18446744073709551615");
    let mut s = String::from("x");
    push_signed_decimal(&mut s, -1);
    assert_eq!(s, "x-1");
    let mut t = String::new();
    push_signed_decimal(&mut t, i64::MIN);
    assert_eq!(t, "-9223372036854775808");
}

#[test]
fn trimming_and_blanks() {
    assert_eq!(trimmed("  a b \n"), "a b");
    assert_eq!(trimmed("\u{3000}x\u{a0}"), "x");
    assert_eq!(trimmed("   "), "");
    assert!(blank(""));
    assert!(blank(" \t\r\n"));
    assert!(!blank(" a "));
}

#[test]
fn words_and_joins() {
    assert_eq!(split_whitespace("  a  bc\td "), vec!["a", "bc", "d"]);
    assert!(split_whitespace("   ").is_empty());
    assert_eq!(join_strings(&vec!["a".into(), "b".into(), "c".into()], ", "), "a, b, c");
    assert_eq!(join_strings(&vec![], ", "), "");
}

#[test]
fn substring_search() {
    assert!(contains("hello world", "lo w"));
    assert!(contains("abc", ""));
    assert!(!contains("abc", "abcd"));
    assert!(!contains("abc", "ac"));
    assert!(same_text("é", "é"));
    assert!(!same_text("a", "ab"));
}

#[test]
fn lines_like_str_lines() {
    for s in ["", "a", "a\n", "a\nb", "a\r\nb\r\n", "\n\n", "a\rb", "x\r", "\r\n"] {
        let expected: Vec<String> = s.lines().map(String::from).collect();
        assert_eq!(split_lines(s), expected, "for {s:?}");
    }
}

#[test]
fn white_space_agrees_with_std() {
    for u in 0u32..0x3100 {
        if let Some(c) = char::from_u32(u) {
            let s = c.to_string();
            assert_eq!(blank(&s), c.is_whitespace(), "for U+{u:04X}");
        }
    }
}

#[test]
fn trim_and_words_agree_with_std() {
    for s in ["", " ", "a", " a ", "\t a b \n", "\u{2003}x\u{2029}", "a  b   c", "\u{85}"] {
        assert_eq!(trimmed(s), s.trim());
        let words: Vec<&str> = s.split_whitespace().collect();
        assert_eq!(split_whitespace(s), words);
    }
}
