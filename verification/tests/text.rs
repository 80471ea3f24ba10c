use music_motion::text::{append_decimal, join_strings, str_equal, str_starts_with, trim_start_matches};

#[test]
fn string_equality() {
    assert!(str_equal("abc", "abc"));
    assert!(!str_equal("abc", "abd"));
    assert!(!str_equal("abc", "ab"));
    assert!(str_equal("", ""));
    assert!(str_equal("héllo", "héllo"));
}

#[test]
fn prefixes() {
    assert!(str_starts_with("abcdef", "abc"));
    assert!(str_starts_with("abc", ""));
    assert!(!str_starts_with("ab", "abc"));
    assert!(!str_starts_with("abd", "abc"));
    assert_eq!(trim_start_matches("ababx", "ab"), "x");
    assert_eq!(trim_start_matches("xab", "ab"), "xab");
    assert_eq!(trim_start_matches("abc", ""), "abc");
    assert_eq!(trim_start_matches("abab", "ab"), "");
}

#[test]
fn decimal_text() {
    for n in [0u32, 7, 10, 99, 100, 65535, 1_000_000, u32::MAX] {
        let mut s = String::from("n=");
        append_decimal(&mut s, n);
        assert_eq!(s, format!("n={}", n));
    }
}

#[test]
fn joining() {
    let v: Vec<String> = vec!["x".into(), "y".into()];
    assert_eq!(join_strings(&v, "--"), "x--y");
    assert_eq!(join_strings(&Vec::new(), ", "), "");
}
