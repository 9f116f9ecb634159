use search_proxy::text;

#[test]
fn lowercasing_is_ascii_only() {
    assert_eq!(text::to_ascii_lowercase("Rate-Limit ÄÖ 429"), "rate-limit ÄÖ 429");
    assert_eq!(text::to_ascii_lowercase(""), "");
}

#[test]
fn trimming_matches_std() {
    for s in ["  a b  ", "\t\r\nx\n", "", "   ", "\u{3000}y\u{a0}", "no-space"] {
        assert_eq!(text::trim_str(s), s.trim());
    }
}

#[test]
fn trailing_slashes_are_removed() {
    assert_eq!(text::trim_end_matches_char("https://vps/", '/'), "https://vps");
    assert_eq!(text::trim_end_matches_char("https://vps///", '/'), "https://vps");
    assert_eq!(text::trim_end_matches_char("https://vps", '/'), "https://vps");
    assert_eq!(text::trim_end_matches_char("///", '/'), "");
}

#[test]
fn prefixes_and_substrings() {
    assert_eq!(text::strip_prefix("Bearer abc", "Bearer "), Some("abc".to_string()));
    assert_eq!(text::strip_prefix("bearer abc", "Bearer "), None);
    assert_eq!(text::strip_prefix("x", ""), Some("x".to_string()));
    let hay = text::chars_of("too many requests");
    assert!(text::chars_contain(&hay, &text::chars_of("many")));
    assert!(text::chars_contain(&hay, &text::chars_of("")));
    assert!(!text::chars_contain(&hay, &text::chars_of("manyy")));
    assert!(text::str_eq("abc", "abc"));
    assert!(!text::str_eq("abc", "abd"));
    assert_eq!(text::concat("ab", "cd"), "abcd");
}
