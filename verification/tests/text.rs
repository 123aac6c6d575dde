use rahgozar::naming::first_free;
use rahgozar::numeral::{parse_u16, parse_u64, to_decimal, to_decimal2, to_hex2};
use rahgozar::text::{
    clean, contains, contains_text, dedup, join, same_ignoring_case, split_at_either, starts_with,
    to_lower, trim, trim_right, trim_trailing,
};

fn texts(items: &[&str]) -> Vec<String> {
    items.iter().map(|s| s.to_string()).collect()
}

#[test]
fn whitespace_is_unicode_whitespace() {
    for s in ["", "  a b ", "\t\u{a0}x\u{3000}\n", "\u{200b}y", "  "] {
        assert_eq!(trim(s), s.trim());
        assert_eq!(trim_right(s), s.trim_end());
    }
    assert_eq!(trim_trailing("a..", '.'), "a");
    assert_eq!(to_lower("ABC\u{c9}"), "abc\u{c9}");
    assert!(same_ignoring_case("AbC", "aBc"));
    assert!(!same_ignoring_case("a", "b"));
}

#[test]
fn lists_are_split_cleaned_and_joined() {
    assert_eq!(split_at_either("a,b\n,c", ',', '\n'), vec!["a", "b", "", "c"]);
    assert_eq!(split_at_either("", ',', '\n'), vec![""]);
    assert_eq!(clean(&texts(&[" a ", "", "  ", "b"])), vec!["a", "b"]);
    assert_eq!(dedup(&texts(&["a", "b", "a"])), vec!["a", "b"]);
    assert_eq!(join(&texts(&["a", "b"]), "--"), "a--b");
    assert_eq!(join(&texts(&[]), "--"), "");
    assert!(contains_text(&texts(&["a"]), "a") && !contains_text(&texts(&["a"]), "b"));
}

#[test]
fn substrings_are_found() {
    assert!(contains("abc", "bc") && contains("abc", "") && !contains("abc", "ac"));
    assert!(!contains("a", "ab"));
    assert!(starts_with("abc", "ab") && !starts_with("abc", "bc") && !starts_with("a", "ab"));
}

#[test]
fn numerals_are_read_and_written() {
    for n in [0u64, 9, 10, 65535, u64::MAX] {
        assert_eq!(to_decimal(n), n.to_string());
        assert_eq!(parse_u64(&to_decimal(n)), Some(n));
    }
    for s in ["", "+", "-1", "+7", "007", "65535", "65536", " 1", "1 ", "a"] {
        assert_eq!(parse_u16(s), s.parse::<u16>().ok(), "{s:?}");
    }
    assert_eq!(parse_u64("18446744073709551616"), None);
    assert_eq!(to_decimal2(7), "07");
    assert_eq!(to_decimal2(123), "123");
    assert_eq!(to_hex2(0xaf), "af");
}

#[test]
fn free_names_are_found() {
    assert_eq!(first_free(&texts(&["n-2", "n-3"]), "n-", ""), "n-4");
    assert_eq!(first_free(&texts(&[]), "n-", ""), "n-2");
}
