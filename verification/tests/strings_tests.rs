use archway::strings::{
    lower_char_exec, str_contains_char, str_eq, str_eq_ignore_ascii_case, str_starts_with,
    str_suffix_after_last,
};

#[test]
fn string_equality_is_by_characters() {
    assert!(str_eq("abc", "abc"));
    assert!(!str_eq("abc", "abd"));
    assert!(!str_eq("abc", "ab"));
    assert!(str_eq("", ""));
}

#[test]
fn prefix_test() {
    assert!(str_starts_with("/src/A/x", "/src/A"));
    assert!(str_starts_with("/src/A", "/src/A"));
    assert!(!str_starts_with("/src/B/x", "/src/A"));
    assert!(!str_starts_with("/s", "/src"));
    assert!(str_starts_with("anything", ""));
}

#[test]
fn suffix_after_last_separator() {
    assert_eq!(str_suffix_after_last("archive.tar.gz", '.').as_str(), "gz");
    assert_eq!(str_suffix_after_last("no-dot", '.').as_str(), "no-dot");
    assert_eq!(str_suffix_after_last("trailing.", '.').as_str(), "");
    assert_eq!(str_suffix_after_last("/a/b/c.txt", '/').as_str(), "c.txt");
}

#[test]
fn ascii_case_folding() {
    assert_eq!(lower_char_exec('A'), 'a');
    assert_eq!(lower_char_exec('Z'), 'z');
    assert_eq!(lower_char_exec('a'), 'a');
    assert_eq!(lower_char_exec('7'), '7');
    assert!(str_eq_ignore_ascii_case("PDF", "pdf"));
    assert!(str_eq_ignore_ascii_case("MiXeD", "mIxEd"));
    assert!(!str_eq_ignore_ascii_case("pdf", "pd"));
    assert!(!str_eq_ignore_ascii_case("pdf", "pdg"));
}

#[test]
fn character_containment() {
    assert!(str_contains_char("a\\b", '\\'));
    assert!(!str_contains_char("a/b", '\\'));
    assert!(!str_contains_char("", 'x'));
}
