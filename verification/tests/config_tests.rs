use glyphlow::config::{
    CommandAction, GlyphlowConfig, KeyBinding, RoleOfInterest, VisibilityCheckingLevel,
    default_dictionaries, default_element_min_height, default_element_min_width,
    default_enable_animation, default_frame_min_size, default_hide_covered_elements,
    default_hide_scrolling_menu, default_hint_keys, default_hint_margin, default_image_min_size,
    default_menu_margin, default_ocr_languages, default_scroll_distance_bits,
    default_starting_role, default_text_actions, default_vis_level, default_wait_ms,
    default_workflows,
};
use glyphlow::hint_keys::HintKeys;
use glyphlow::keys::{Key, format_key_combo, parse_key_combo};

#[test]
fn test_key_combo_formatting() {
    let binding = KeyBinding { keys: vec![Key::ControlLeft, Key::ShiftLeft, Key::KeyZ] };

    let text = format_key_combo(&binding.keys);
    assert_eq!(text, "CTRL + SHIFT + Z");

    let decoded = parse_key_combo(&text).unwrap();
    assert_eq!(decoded, vec![Key::ControlLeft, Key::ShiftLeft, Key::KeyZ]);
}

#[test]
fn test_config_global_key_with_space() {
    assert_eq!(parse_key_combo("META + SPACE").unwrap(), vec![Key::MetaLeft, Key::Space]);
}

#[test]
fn key_combos_are_read_case_insensitively_and_trimmed() {
    assert_eq!(parse_key_combo(" meta +p ").unwrap(), vec![Key::MetaLeft, Key::KeyP]);
    assert_eq!(parse_key_combo("alt+g").unwrap(), vec![Key::AltLeft, Key::KeyG]);
}

#[test]
fn an_unknown_key_names_the_part() {
    assert_eq!(parse_key_combo("CTRL + HYPER").unwrap_err(), "Invalid key:  HYPER");
    assert_eq!(parse_key_combo("").unwrap_err(), "Invalid key: ");
}

#[test]
fn right_modifiers_are_written_like_left_ones() {
    assert_eq!(format_key_combo(&[Key::AltRight, Key::KeyA]), "ALT + A");
    assert_eq!(format_key_combo(&[]), "");
}

#[test]
fn test_safe_reload_compatibility() {
    let mut old_config = GlyphlowConfig::default();
    let mut new_config = GlyphlowConfig::default();

    assert!(new_config.safe_reload(&mut old_config));

    new_config.scroll_distance_bits = 99.9f64.to_bits();
    assert!(new_config.safe_reload(&mut old_config), "Minor settings should be compatible");

    new_config.global_trigger_key = KeyBinding { keys: vec![Key::ControlLeft, Key::KeyX] };
    assert!(!new_config.safe_reload(&mut old_config), "Hotkey change should be incompatible");
    assert_eq!(
        old_config.global_trigger_key, new_config.global_trigger_key,
        "Should sync value"
    );

    new_config.editor = Some(CommandAction {
        command: "code".into(),
        args: vec![],
        display: "VSCode".into(),
        key: "E".into(),
    });
    assert!(!new_config.safe_reload(&mut old_config), "Adding editor should be incompatible");

    // 5. Test change in workflow keys
    new_config.workflows[0].key = "X".into();
    assert!(
        !new_config.safe_reload(&mut old_config),
        "Workflow key change should be incompatible"
    );
}

#[test]
fn test_safe_reload_workflow_len_mismatch() {
    let mut old_config = GlyphlowConfig::default();
    let mut new_config = GlyphlowConfig::default();

    new_config.workflows.pop();

    let compatible = new_config.safe_reload(&mut old_config);
    assert!(!compatible, "Changing workflow count must be incompatible");
    assert_eq!(
        old_config.workflows.len(),
        new_config.workflows.len(),
        "Workflow list should sync"
    );
}

#[test]
fn test_safe_reload_text_actions() {
    let mut old_config = GlyphlowConfig::default();
    let mut new_config = GlyphlowConfig::default();

    new_config.text_actions.push(CommandAction {
        command: "echo".into(),
        args: vec![],
        display: "Echo".into(),
        key: "E".into(),
    });

    assert!(!new_config.safe_reload(&mut old_config), "New text action should be incompatible");
    assert_eq!(old_config.text_actions.len(), 1);
}

#[test]
fn safe_reload_keeps_plain_settings_of_the_new_file() {
    let old_config = GlyphlowConfig::default();
    let mut new_config = GlyphlowConfig::default();
    new_config.element_min_width = 3;
    new_config.hint_keys = HintKeys::new("jk");
    assert!(old_config.safe_reload(&mut new_config));
    assert_eq!(new_config.element_min_width, 3);
    assert_eq!(new_config.hint_keys.as_str(), "JK");
}

#[test]
fn defaults_are_as_documented() {
    let config = GlyphlowConfig::default();
    assert_eq!(config.global_trigger_key.keys, vec![Key::AltLeft, Key::KeyG]);
    assert!(config.editor.is_none());
    assert_eq!(config.ocr_languages, vec!["en-US".to_string()]);
    assert_eq!(f64::from_bits(config.scroll_distance_bits), 0.05);
    assert_eq!(default_starting_role(), RoleOfInterest::Generic);
    assert_eq!(default_hint_margin(), 3);
    assert_eq!(default_menu_margin(), 10);
    assert!(default_enable_animation());
    assert!(default_text_actions().is_empty());
    assert_eq!(f64::from_bits(default_scroll_distance_bits()), 0.05);
    assert!(!default_hide_scrolling_menu());
    assert!(default_hide_covered_elements());
    assert_eq!(default_element_min_width(), 15);
    assert_eq!(default_element_min_height(), 15);
    assert_eq!(default_frame_min_size(), 200);
    assert_eq!(default_image_min_size(), 20);
    assert_eq!(default_ocr_languages(), vec!["en-US".to_string()]);
    assert_eq!(default_dictionaries(), vec!["New Oxford American Dictionary".to_string()]);
    assert_eq!(default_vis_level(), VisibilityCheckingLevel::Loose);
    assert_eq!(default_wait_ms(), 100);
    assert_eq!(default_hint_keys(), HintKeys::default());
    let flows = default_workflows();
    assert_eq!(flows.len(), config.workflows.len());
    assert_eq!(flows[0].key, "R");
}

#[test]
fn a_second_reload_puts_nothing_back() {
    let running = GlyphlowConfig::default();
    let mut loaded = GlyphlowConfig::default();
    loaded.global_trigger_key = KeyBinding { keys: vec![Key::MetaLeft, Key::KeyP] };
    loaded.workflows.pop();
    assert!(!running.safe_reload(&mut loaded));
    assert!(running.safe_reload(&mut loaded));
    assert_eq!(loaded.global_trigger_key.keys, vec![Key::AltLeft, Key::KeyG]);
}
