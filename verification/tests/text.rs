use tunnelx::text::{
    contains, decimal2_text, decimal_text, ends_with, eq_ignore_ascii_case, index_of_char, is_white_space,
    join2, occurs_at_index, replace, same_text, slice, starts_with, text_lines, trim,
};

#[test]
fn trim_removes_unicode_white_space_at_both_ends() {
    assert_eq!(trim("  a b \t\n"), "a b");
    assert_eq!(trim("\u{3000}x\u{85}"), "x");
    assert_eq!(trim(" \u{2029} "), "");
    assert_eq!(trim(""), "");
    assert_eq!(trim("\u{200b}x"), "\u{200b}x");
    for s in ["  My-App ", "\u{a0}é\u{1680}", "x\u{2000}y", "\r\n"] {
        assert_eq!(trim(s), s.trim());
    }
}

#[test]
fn white_space_is_the_unicode_property() {
    for c in ['\t', '\n', '\u{b}', '\u{c}', '\r', ' ', '\u{85}', '\u{a0}', '\u{1680}', '\u{2000}', '\u{200a}', '\u{2028}', '\u{2029}', '\u{202f}', '\u{205f}', '\u{3000}'] {
        assert!(is_white_space(c));
        assert!(c.is_whitespace());
    }
    for c in ['a', '\u{200b}', '\u{180e}', '\0', '-'] {
        assert!(!is_white_space(c));
        assert_eq!(c.is_whitespace(), false);
    }
}

#[test]
fn prefix_suffix_and_search() {
    assert!(starts_with("/t/abc", "/t/"));
    assert!(!starts_with("/t", "/t/"));
    assert!(ends_with("a.darsha.dev", ".darsha.dev"));
    assert!(!ends_with("dev", ".dev"));
    assert!(contains("wss://localhost:8443", "localhost"));
    assert!(!contains("wss://relay", "localhost"));
    assert!(occurs_at_index("abcabc", "ca", 2));
    assert!(!occurs_at_index("abcabc", "ca", 3));
    assert_eq!(index_of_char("a:b:c", ':'), Some(1));
    assert_eq!(index_of_char("abc", ':'), None);
}

#[test]
fn replace_slice_and_join() {
    assert_eq!(replace("wss://x/wss://", "wss://", "ws://"), "ws://x/ws://");
    assert_eq!(replace("aaa", "aa", "b"), "ba");
    assert_eq!(slice("héllo", 1, 3), "él");
    assert_eq!(join2("a", "b"), "ab");
    assert!(same_text("x", "x"));
    assert!(!same_text("x", "X"));
    assert!(eq_ignore_ascii_case("WebSocket", "websocket"));
    assert!(!eq_ignore_ascii_case("websockets", "websocket"));
}

#[test]
fn decimals() {
    assert_eq!(decimal_text(0), "0");
    assert_eq!(decimal_text(8443), "8443");
    assert_eq!(decimal_text(u64::MAX), u64::MAX.to_string());
    assert_eq!(decimal2_text(5), "05");
    assert_eq!(decimal2_text(42), "42");
    assert_eq!(decimal2_text(123), "123");
}

#[test]
fn lines_split_as_str_lines_does() {
    for s in ["a\nb", "a\r\nb\n", "", "\n", "\n\n", "x\r", "one\r\ntwo\rthree\n\nfour", "█ █\n  █"] {
        let expected: Vec<String> = s.lines().map(|l| l.to_string()).collect();
        assert_eq!(text_lines(s), expected, "{s:?}");
    }
    assert_eq!(text_lines("a\nb"), vec!["a".to_string(), "b".to_string()]);
}
