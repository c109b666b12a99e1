use hubbub_html_parser::text::eq_slice;

#[test]
fn strings_are_equal_when_their_characters_are() {
    assert!(eq_slice("", ""));
    assert!(eq_slice("link", "link"));
    assert!(eq_slice("\u{e9}\u{1f600}", "\u{e9}\u{1f600}"));
    assert!(!eq_slice("link", "Link"));
    assert!(!eq_slice("link", "lin"));
    assert!(!eq_slice("", "a"));
    assert!(!eq_slice("\u{e9}", "e\u{301}"));
}
