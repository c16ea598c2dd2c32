use glyphlow::hint_keys::{HintKeys, TYPABLE_HINT_CHARS, TYPABLE_HINT_MASK, ascii_bit, hint_labels};
use std::collections::HashSet;

#[test]
fn test_hint_keys_sanitization() {
    // Case is normalized: typed letters are reported upper-cased.
    assert_eq!(HintKeys::new("asdfjkl;").as_str(), "ASDFJKL;");
    // Duplicates are dropped, keeping the first occurrence.
    assert_eq!(HintKeys::new("aabcc").as_str(), "ABC");
    // Characters the key listener cannot report are dropped.
    assert_eq!(HintKeys::new("a!b c\tdé").as_str(), "ABCD");
    // Digits and most punctuation are valid hint keys.
    assert_eq!(HintKeys::new("123;',.").as_str(), "123;',.");
}

#[test]
fn test_hint_keys_rejects_slash() {
    let keys = HintKeys::new("asdfjkl/;");
    assert_eq!(keys.as_str(), "ASDFJKL;");
    assert!(!keys.as_str().contains('/'));

    // A slash-only alphabet leaves nothing usable, so the default is kept.
    assert_eq!(HintKeys::new("//").as_str(), HintKeys::DEFAULT_ALPHABET);
}

#[test]
fn test_typable_hint_chars_match_mask_and_are_ascii() {
    assert!(TYPABLE_HINT_CHARS.is_ascii());
    assert!(HintKeys::DEFAULT_ALPHABET.is_ascii());

    for c in TYPABLE_HINT_CHARS.chars() {
        assert_ne!(
            ascii_bit(c) & TYPABLE_HINT_MASK,
            0,
            "{c:?} is listed as typable but is missing from the mask"
        );
        // The leading 'A' guarantees the input is long enough to keep.
        assert!(
            HintKeys::new(&format!("A{c}")).as_str().contains(c),
            "{c:?} is listed as typable but was dropped by sanitizing"
        );
    }

    // Non-ASCII never makes it into an alphabet, so byte indexing is sound.
    for raw in ["é", "aé", "日本", "a\u{301}"] {
        assert!(
            HintKeys::new(raw).as_str().is_ascii(),
            "{raw:?} produced a non-ASCII alphabet"
        );
    }

    // The default must be a valid alphabet, not merely a string.
    assert_eq!(HintKeys::new(HintKeys::DEFAULT_ALPHABET), HintKeys::default());
    assert!(HintKeys::default().base() >= HintKeys::MIN_LEN);
}

#[test]
fn test_hint_keys_falls_back_when_unusable() {
    // A single key cannot tell hints apart, so the default is kept instead.
    for raw in ["", "a", "aa", "a!!a", "  "] {
        assert_eq!(
            HintKeys::new(raw),
            HintKeys::default(),
            "{raw:?} should fall back to the default alphabet"
        );
    }
    assert_eq!(HintKeys::default().as_str(), "ABCDEFGHIJKLMNOPQRSTUVWXYZ");
}

#[test]
fn test_hint_keys_default_labels_are_unchanged() {
    let keys = HintKeys::default();

    // Unpadded labels, as used while elements are still being traversed.
    assert_eq!(keys.label_for_index(0, None), "A");
    assert_eq!(keys.label_for_index(1, None), "B");
    assert_eq!(keys.label_for_index(25, None), "Z");
    assert_eq!(keys.label_for_index(26, None), "AB");

    // Padded labels, as used once the hint width is known.
    assert_eq!(keys.label_for_index(0, Some(1)), "A");
    assert_eq!(keys.label_for_index(25, Some(1)), "Z");
    assert_eq!(keys.label_for_index(0, Some(2)), "AA");
    assert_eq!(keys.label_for_index(25, Some(2)), "ZA");
    assert_eq!(keys.label_for_index(26, Some(2)), "AB");
}

#[test]
fn test_hint_keys_custom_alphabet_labels() {
    let keys = HintKeys::new("asdfjkl;");
    assert_eq!(keys.base(), 8);

    // 8 keys address up to 8 hints with a single keystroke.
    assert_eq!(keys.digits_for_len(8), 1);
    assert_eq!(keys.label_for_index(0, Some(1)), "A");
    assert_eq!(keys.label_for_index(7, Some(1)), ";");

    // The 9th hint needs two keystrokes.
    assert_eq!(keys.digits_for_len(9), 2);
    assert_eq!(keys.label_for_index(0, Some(2)), "AA");
    assert_eq!(keys.label_for_index(8, Some(2)), "AS");
    assert_eq!(keys.label_for_index(63, Some(2)), ";;");
}

#[test]
fn test_hint_keys_digits_for_len() {
    let letters = HintKeys::default();
    assert_eq!(letters.digits_for_len(0), 1);
    assert_eq!(letters.digits_for_len(1), 1);
    assert_eq!(letters.digits_for_len(26), 1);
    assert_eq!(letters.digits_for_len(27), 2);
    assert_eq!(letters.digits_for_len(676), 2);
    assert_eq!(letters.digits_for_len(677), 3);

    let home_row = HintKeys::new("asdfjkl;");
    assert_eq!(home_row.digits_for_len(1), 1);
    assert_eq!(home_row.digits_for_len(9), 2);
    assert_eq!(home_row.digits_for_len(64), 2);
    assert_eq!(home_row.digits_for_len(65), 3);

    let binary = HintKeys::new("jk");
    assert_eq!(binary.digits_for_len(2), 1);
    assert_eq!(binary.digits_for_len(3), 2);
    assert_eq!(binary.digits_for_len(4), 2);
    assert_eq!(binary.digits_for_len(5), 3);
}

fn reference(keys: &[char], i: usize, digits: Option<u32>) -> String {
    if i == 0 && digits.is_none() {
        return keys[0].to_string();
    }
    let mut n = i;
    let mut result = Vec::new();
    while n > 0 {
        result.push(keys[n % keys.len()]);
        n /= keys.len();
    }
    if let Some(digits) = digits {
        while result.len() < digits as usize {
            result.push(keys[0]);
        }
    }
    result.into_iter().collect()
}

#[test]
fn test_label_for_index_matches_reference() {
    for raw in ["asdfjkl;", "jk", "a;", "0123456789", "ABCDEFGHIJKLMNOPQRSTUVWXYZ"] {
        let keys = HintKeys::new(raw);
        let chars = keys.as_str().chars().collect::<Vec<_>>();
        assert_eq!(chars.len(), keys.base());

        for digits in [None, Some(1), Some(2), Some(3), Some(5)] {
            for i in 0..256 {
                assert_eq!(
                    keys.label_for_index(i, digits),
                    reference(&chars, i, digits),
                    "mismatch for {raw:?} at i = {i}, digits = {digits:?}"
                );
            }
        }
    }
}

#[test]
fn test_hint_keys_labels_are_unique_and_fixed_width() {
    for raw in ["asdfjkl;", "jk", "0123456789", "ABCDEFGHIJKLMNOPQRSTUVWXYZ"] {
        let keys = HintKeys::new(raw);
        let alphabet = keys.as_str();

        for len in 1..=(keys.base() * keys.base() + 1) {
            let digits = keys.digits_for_len(len);
            let labels = (0..len)
                .map(|i| keys.label_for_index(i, Some(digits)))
                .collect::<HashSet<_>>();

            assert_eq!(
                labels.len(),
                len,
                "labels for {len} hints over {alphabet:?} are not unique: {labels:?}"
            );
            for label in &labels {
                assert_eq!(
                    label.chars().count(),
                    digits as usize,
                    "label {label:?} is not {digits} characters wide"
                );
                assert!(
                    label.chars().all(|c| alphabet.contains(c)),
                    "label {label:?} uses a key outside of {alphabet:?}"
                );
            }
        }
    }
}

#[test]
fn normalizing_twice_changes_nothing() {
    for raw in ["asdfjkl;", "aabcc", "a!b c\tdé", "", "jk", "//"] {
        let once = HintKeys::new(raw);
        let twice = HintKeys::new(once.as_str());
        assert_eq!(once, twice, "{raw:?}");
    }
}

#[test]
fn first_key_pads_every_label() {
    let keys = HintKeys::new("asdfjkl;");
    assert_eq!(keys.first(), 'A');
    assert_eq!(keys.label_for_index(1, Some(3)), "SAA");
    assert_eq!(HintKeys::default().first(), 'A');
}

#[test]
fn a_batch_of_labels_shares_one_width() {
    let keys = HintKeys::new("jk");
    let (digits, labels) = hint_labels(&keys, 5);
    assert_eq!(digits, 3);
    assert_eq!(labels, vec!["JJJ", "KJJ", "JKJ", "KKJ", "JJK"]);

    let (digits, labels) = hint_labels(&keys, 0);
    assert_eq!(digits, 0);
    assert!(labels.is_empty());

    let (digits, labels) = hint_labels(&HintKeys::default(), 1);
    assert_eq!(digits, 1);
    assert_eq!(labels, vec!["A"]);
}

#[test]
fn cloned_keys_are_equal() {
    let keys = HintKeys::new("asdf");
    assert_eq!(keys.clone(), keys);
}
