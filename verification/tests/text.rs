use mep_bot::text::{chars_of, parse_u64, same_text, text_contains};

#[test]
fn contains_finds_runs() {
    assert!(text_contains("Bad credentials", "Bad credentials"));
    assert!(text_contains("xx Bad credentials yy", "Bad credentials"));
    assert!(text_contains("abc", ""));
    assert!(text_contains("", ""));
    assert!(!text_contains("", "a"));
    assert!(!text_contains("Bad credential", "Bad credentials"));
    assert!(text_contains("ñandú", "dú"));
    assert!(!text_contains("abab", "abb"));
}

#[test]
fn parse_u64_cases() {
    assert_eq!(parse_u64("42"), Some(42));
    assert_eq!(parse_u64("+42"), Some(42));
    assert_eq!(parse_u64("++42"), None);
    assert_eq!(parse_u64("4 2"), None);
    assert_eq!(parse_u64("٣"), None);
    for s in ["0", "1", "60", "18446744073709551615", "18446744073709551616", "-0", "", "+", "1_000"] {
        assert_eq!(parse_u64(s), s.parse::<u64>().ok(), "{}", s);
    }
}

#[test]
fn text_helpers() {
    assert!(same_text("CI", "CI"));
    assert!(!same_text("CI", "ci"));
    assert_eq!(chars_of("añb"), vec!['a', 'ñ', 'b']);
}
