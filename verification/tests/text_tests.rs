use glyphlow::ipc::{SOCKET_FILE_NAME, cache_dir_from, join_path, socket_path};
use glyphlow::pattern::{Pattern, search_regex};
use glyphlow::text::{ascii_lowercase, is_whitespace, starts_with, trim_whitespace};
use glyphlow::keys::Key;
use glyphlow::ax_element::match_helper;
use glyphlow::util::{format_fixed_width, lower_ascii};

fn fixed(input: &str, width: usize, expected: &str) {
    assert_eq!(format_fixed_width(input, width), expected, "{input:?} in {width} columns");
}

#[test]
fn truncates_to_a_fixed_display_width() {
    fixed("", 5, "");
    fixed("", 0, "");
    fixed("hello", 0, "");
    fixed("hello", 5, "hello");
    fixed("abc", 5, "abc");
    fixed("hello", 3, ".lo");
    fixed("hello", 1, ".");
    fixed("こんにちは", 10, "こんにちは");
    fixed("こんにちは", 5, ".ちは");
    fixed("こんにちは", 6, ".ちは");
    fixed("🦀🦀🦀", 6, "🦀🦀🦀");
    fixed("🦀🦀🦀", 5, ".🦀🦀");
    fixed("Rust🦀", 3, ".🦀");
    fixed("Rust🦀", 5, ".st🦀");
    fixed("xyz\u{301}", 1, ".\u{301}");
}

#[test]
fn control_characters_take_no_columns_when_cut() {
    fixed("ab\u{7}cd", 3, ".\u{7}cd");
}

fn matches(query: &str, haystack: &str) -> bool {
    search_regex(query).expect("a non-empty query always compiles").is_match(haystack)
}

#[test]
fn matches_a_substring_with_in_band_word_separators() {
    assert!(matches("alpha", "alpha beta"));
    assert!(matches("pha", "alpha beta"));
    assert!(!matches("omega", "alpha beta"));
    assert!(matches("alpha\u{f1050}beta", "alpha beta"));
    assert!(matches("alpha\u{f1050}beta", "alpha and beta"));
    assert!(!matches("beta\u{f1050}alpha", "alpha beta"));
}

#[test]
fn an_empty_query_is_no_filter() {
    assert!(search_regex("").is_none());
}

#[test]
fn stray_separators_collapse() {
    for (query, equivalent) in [
        ("\u{f1050}alpha", "alpha"),
        ("alpha\u{f1050}", "alpha"),
        ("alpha\u{f1050}\u{f1050}\u{f1050}beta", "alpha\u{f1050}beta"),
    ] {
        assert_eq!(
            search_regex(query).unwrap().as_str(),
            search_regex(equivalent).unwrap().as_str(),
            "{query:?} must behave exactly like {equivalent:?}"
        );
    }
}

#[test]
fn the_search_pattern_wraps_the_words() {
    assert_eq!(search_regex("alpha\u{f1050}beta").unwrap().as_str(), ".*alpha.*beta.*");
}

#[test]
fn a_query_of_separators_alone_matches_everything() {
    let re = search_regex("\u{f1050}").expect("a non-empty query still yields a pattern");

    assert!(re.is_match(""));
    assert!(re.is_match("anything at all"));
}

#[test]
fn a_malformed_query_degrades_to_no_filter() {
    for query in ["(", "["] {
        assert!(search_regex(query).is_none(), "{query:?} cannot be compiled");
    }
}

#[test]
fn a_pattern_that_does_not_compile_is_an_error() {
    let err = Pattern::new("[invalid").err().expect("must not compile");
    assert_eq!(err.pattern, "[invalid");
    assert!(!err.message.is_empty());
    let ok = Pattern::new("Save.*").ok().expect("compiles");
    assert_eq!(ok.as_str(), "Save.*");
    assert!(ok.is_match("Save As"));
    assert!(!ok.is_match("Open"));
}

#[test]
fn finds_every_match_with_its_byte_offset() {
    let p = Pattern::new("[0-9]+").ok().unwrap();
    assert_eq!(
        p.find_all("a1 é22 333"),
        vec![(1, "1".to_string()), (5, "22".to_string()), (8, "333".to_string())]
    );
}

#[test]
fn lower_ascii_folds_case_and_accents() {
    for (input, expected) in [("ALPHA", "alpha"), ("CAFÉ", "cafe"), ("Straße", "strasse")] {
        assert_eq!(lower_ascii(input), expected);
    }
}

#[test]
fn case_changes_follow_std() {
    assert_eq!(Key::from_str("shift"), Some(Key::ShiftLeft));
    assert_eq!(Key::from_str("q"), Some(Key::KeyQ));
    assert_eq!(Key::from_str("é"), None);
    assert!(match_helper("ÀB", "xàbx"));
    assert_eq!(ascii_lowercase("ÀBC"), "Àbc");
}

#[test]
fn trimming_and_prefixes() {
    assert_eq!(trim_whitespace("  a b\t\n"), "a b");
    assert_eq!(trim_whitespace("\u{3000}x\u{a0}"), "x");
    assert!(is_whitespace('\u{2028}'));
    assert!(!is_whitespace('x'));
    assert!(starts_with("ABC", "AB"));
    assert!(starts_with("ABC", ""));
    assert!(!starts_with("AB", "ABC"));
}

#[test]
fn cache_dir_prefers_xdg_cache_home() {
    assert_eq!(
        cache_dir_from(Some("/xdg/cache"), Some("/home/user")),
        Some("/xdg/cache/glyphlow".to_string())
    );
    assert_eq!(cache_dir_from(None, Some("/home/user")), Some("/home/user/.cache/glyphlow".to_string()));
    assert_eq!(cache_dir_from(None, None), None);
}

#[test]
fn the_socket_lives_in_the_cache_dir() {
    assert_eq!(
        socket_path(None, Some("/home/user/")),
        Some(format!("/home/user/.cache/glyphlow/{SOCKET_FILE_NAME}"))
    );
    assert_eq!(socket_path(None, None), None);
    assert_eq!(join_path("", "a"), "a");
    assert_eq!(join_path("/", "a"), "/a");
}
