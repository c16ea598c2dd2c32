use glyphlow::css::{WORD_PICKER_STYLE, hex_to_rgba, replace_all, replace_color_in_css, rgba_to_css_color, rgba_to_hex};
use glyphlow::hint_keys::HintKeys;
use glyphlow::word_picker::WordPicker;
use glyphlow::word_split::multilingual_split;

fn split(input: &str, words: &[&str], offsets: &[usize]) {
    let expected = (words.iter().map(|w| (*w).to_owned()).collect::<Vec<String>>(), offsets.to_vec());
    assert_eq!(multilingual_split(input).expect("the patterns compile"), expected, "{input:?}");
}

#[test]
fn splits_on_script_boundaries() {
    split("Hello world rust", &["Hello", "world", "rust"], &[0, 6, 12]);
    split("こんにちは 世界 常用漢字", &["こんにちは", "世界", "常用漢字"], &[0, 16, 23]);
    split("Hello世界2024年", &["Hello", "世界", "2024", "年"], &[0, 5, 11, 15]);
    split("Rustはawesomeです", &["Rust", "は", "awesome", "です"], &[0, 4, 7, 14]);
    split("Wait!世界...", &["Wait!", "世界", "..."], &[0, 5, 11]);
    split(
        "Check https://example.com/path/世界/page?query=1#hash",
        &["Check", "https://example.com/path/世界/page?query=1#hash"],
        &[0, 6],
    );
    split("", &[], &[]);
    split("   ", &[], &[]);
    split("English😁👻", &["English", "😁", "👻"], &[0, 7, 11]);
}

#[test]
fn a_single_word_is_cut_at_punctuation_then_at_scripts() {
    split("foo.bar", &["foo", "bar"], &[0, 4]);
    split("  (abc)", &["abc"], &[3]);
    split("abcé", &["abc", "é"], &[0, 3]);
}

#[test]
fn every_word_stands_at_its_offset() {
    let text = "  Wait!世界... then https://x.io/a 2024年";
    let (words, offsets) = multilingual_split(text).unwrap();
    for (w, o) in words.iter().zip(offsets.iter()) {
        assert_eq!(&text[*o..*o + w.len()], w);
    }
}

fn picker(text: &str, keys: &str) -> WordPicker {
    WordPicker::new(text.to_string(), &HintKeys::new(keys)).expect("the patterns compile")
}

#[test]
fn a_picker_labels_every_word_with_one_width() {
    let wp = picker("alpha beta gamma", "jk");
    assert_eq!(wp.digits(), 2);
    let (html, matched) = wp.to_string(1000, None, "", "");
    assert!(matched.is_empty());
    assert!(html.starts_with("<span class=\"h\">Press / to search</span>\n<span class=\"line\">"));
    assert!(html.contains("<span class=\"n\">alpha</span> <span class=\"h\">JJ</span> "));
    assert!(html.contains("<span class=\"n\">gamma</span> <span class=\"h\">JK</span> "));
    assert!(html.ends_with("</span>"));
}

#[test]
fn match_queries_agree_on_whether_the_pick_is_unambiguous() {
    let mut wp = picker("alpha beta alpha", "jk");
    assert_eq!(wp.matched_count(), 0);
    assert!(!wp.all_matches_are_one_word());
    assert_eq!(wp.first_matched_word(), None);

    // "J" labels: JJ (0) and JK (2) both start with J: two copies of "alpha".
    let html = wp.update_text_layer(1000, None, "J", "");
    assert_eq!(wp.matched_count(), 2);
    assert!(wp.all_matches_are_one_word());
    assert_eq!(wp.first_matched_word(), Some((0, "alpha")));
    assert!(html.contains("<span class=\"m\">alpha</span> <span class=\"d\">J</span><span class=\"h\">J</span> "));
    assert!(html.contains("<span class=\"d\">beta</span> <span class=\"d\">KJ</span> "));

    wp.update_text_layer(1000, None, "", "a");
    assert_eq!(wp.matched_count(), 3);
    assert!(!wp.all_matches_are_one_word());

    let html = wp.update_text_layer(1000, None, "KK", "");
    assert_eq!(wp.matched_count(), 0);
    assert!(html.starts_with("<span class=\"h\">Press \u{f006e} to return</span>"));
}

#[test]
fn a_search_narrows_the_matches() {
    let mut wp = picker("Café crème brûlée", "asdf");
    wp.update_text_layer(1000, None, "", "cre");
    assert_eq!(wp.matched_count(), 1);
    assert_eq!(wp.first_matched_word(), Some((1, "crème")));
}

#[test]
fn the_selected_end_is_set_apart() {
    let wp = picker("one two", "jk");
    let (html, matched) = wp.to_string(1000, Some(1), "", "");
    assert!(matched.is_empty());
    assert!(html.contains("<span class=\"rh\">two</span> <span class=\"d\">K</span> "));
}

#[test]
fn lines_break_near_the_ideal_width() {
    let wp = picker("aa bb cc", "jk");
    // Each word takes 2 + 2 + 2 = 6 columns.
    let (html, _) = wp.to_string(12, None, "", "");
    assert_eq!(html.matches("<span class=\"line\">").count(), 2);
    let (html, _) = wp.to_string(0, None, "", "");
    assert_eq!(html.matches("<span class=\"line\">").count(), 3);
    assert_eq!(wp.total_width(), 18);
}

#[test]
fn select_range_spans_the_raw_text() {
    let wp = picker("Hello, brave new world", "asdf");
    assert_eq!(wp.select_range(1, 3), Some("brave new world".to_string()));
    assert_eq!(wp.select_range(3, 1), Some("brave new world".to_string()));
    assert_eq!(wp.select_range(2, 2), Some("new".to_string()));
    assert_eq!(wp.select_range(0, 9), None);
}

#[test]
fn colours_are_written_as_css() {
    assert_eq!(rgba_to_css_color((255, 0, 0, 128)), "rgba(255, 0, 0, 0.50)");
    assert_eq!(rgba_to_css_color((1, 22, 133, 255)), "rgba(1, 22, 133, 1.00)");
    assert_eq!(rgba_to_css_color((0, 0, 0, 0)), "rgba(0, 0, 0, 0.00)");
    for a in 0..=255u8 {
        let expected = format!("rgba(0, 0, 0, {:.2})", a as f64 / 255.0);
        assert_eq!(rgba_to_css_color((0, 0, 0, a)), expected);
    }
}

#[test]
fn the_style_gets_its_colours() {
    let css = replace_color_in_css(WORD_PICKER_STYLE, Some((255, 255, 255, 255)), None, Some((1, 2, 3, 255)), 3);
    assert!(css.contains("color: rgba(255, 255, 255, 1.00);"));
    assert!(css.contains(".h { color: rgba(1, 2, 3, 1.00) }"));
    assert!(css.contains(".d { color: rgba(255, 255, 255, 0.33) }"));
    assert!(!css.contains("_color}"));
    assert_eq!(replace_all("aXbXXc", "X", "yy"), "ayybyyyyc");
    assert_eq!(replace_all("aaa", "aa", "b"), "ba");
}

#[test]
fn test_hex_color_conversion() {
    let (r, g, b, a) = hex_to_rgba("#ff000080").expect("Should parse valid hex");
    assert_eq!(r, 255);
    assert_eq!(g, 0);
    assert_eq!(b, 0);
    assert_eq!(a, 128);
}

#[test]
fn test_hex_no_alpha() {
    let (r, g, b, a) = hex_to_rgba("#FF00FF").expect("Should parse 6-digit hex");
    assert_eq!(r as f64 / 255.0, 1.0);
    assert_eq!(g as f64 / 255.0, 0.0);
    assert_eq!(b as f64 / 255.0, 1.0);
    assert_eq!(a as f64 / 255.0, 1.0);
}

#[test]
fn hex_colours_read_back() {
    assert_eq!(rgba_to_hex((0xaa, 0xbb, 0xcc, 0xff)), "#aabbcc");
    assert_eq!(rgba_to_hex((0, 1, 2, 3)), "#00010203");
    for c in [(0xaa, 0xbb, 0xcc, 0xff), (0, 1, 2, 3), (255, 255, 255, 254)] {
        assert_eq!(hex_to_rgba(&rgba_to_hex(c)), Some(c));
    }
    assert_eq!(hex_to_rgba("##+f00ff"), Some((15, 0, 255, 255)));
    assert_eq!(hex_to_rgba("#ff00f"), None);
    assert_eq!(hex_to_rgba("#ff00zz"), None);
    assert_eq!(hex_to_rgba("#ff00ffé"), None);
    assert_eq!(hex_to_rgba("#ff00ff0"), Some((255, 0, 255, 255)));
}
