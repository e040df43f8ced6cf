use yt2action::text::{decimal_string, join_strings, join_path, split_chars, string_of, trim_str};

#[test]
fn text_helpers() {
    assert_eq!(trim_str("  \t hi there \n"), "hi there");
    assert_eq!(trim_str("   "), "");
    assert_eq!(decimal_string(0), "0");
    assert_eq!(decimal_string(18446744073709551615), "18446744073709551615");
    assert_eq!(join_strings(&vec!["a".to_string(), "b".to_string()], ", "), "a, b");
    assert_eq!(join_strings(&vec![], ", "), "");
    assert_eq!(join_path("/home/x", "a/b"), "/home/x/a/b");
    assert_eq!(join_path("/home/x/", "a"), "/home/x/a");
    let parts = split_chars(&"a,b,".chars().collect(), ',');
    let parts: Vec<String> = parts.iter().map(|p| string_of(p)).collect();
    assert_eq!(parts, vec!["a", "b", ""]);
}

#[test]
fn trim_uses_unicode_white_space() {
    assert_eq!(trim_str("\u{00A0}\u{3000}x y\u{2029}\u{205F}"), "x y");
    assert_eq!(trim_str("\u{200B}x"), "\u{200B}x");
}
