use glyphlow::ax_element::Target;
use glyphlow::config::GlyphlowConfig;
use glyphlow::key_listener::{
    AppSignal, FilterMode, KeyListener, KeyState, MenuItem, MenuTable, MenuType, Mode,
    dash_board_menu_items, image_action_menu_items, scrollbar_menu_items, text_action_menu_items,
};
use glyphlow::keys::Key;

fn listener() -> KeyListener {
    KeyListener::new(&GlyphlowConfig::default())
}

#[test]
fn the_global_binding_opens_the_dashboard() {
    let kl = listener();
    let mut mode = Mode::Idle;
    let mut ks = KeyState::default();
    ks.key_down(&Key::AltLeft);
    let out = kl.key_down(Key::KeyG, &mut mode, &mut ks);
    assert!(out.swallow);
    assert_eq!(out.signal, Some(AppSignal::MenuRefresh(String::new())));
    assert_eq!(mode, Mode::DashBoard);
}

#[test]
fn the_right_alt_also_completes_the_binding() {
    let kl = listener();
    let mut mode = Mode::Idle;
    let mut ks = KeyState::default();
    ks.key_down(&Key::AltRight);
    assert!(kl.key_down(Key::KeyG, &mut mode, &mut ks).swallow);
}

#[test]
fn unbound_keys_pass_through() {
    let kl = listener();
    let mut mode = Mode::Idle;
    let mut ks = KeyState::default();
    let out = kl.key_down(Key::KeyG, &mut mode, &mut ks);
    assert!(!out.swallow);
    assert_eq!(out.signal, None);
    assert_eq!(mode, Mode::Idle);
}

#[test]
fn a_dashboard_key_activates_its_target() {
    let kl = listener();
    let mut mode = Mode::DashBoard;
    let mut ks = KeyState::default();
    let out = kl.key_down(Key::KeyT, &mut mode, &mut ks);
    assert_eq!(out.signal, Some(AppSignal::Activate(Target::Text)));
    assert_eq!(mode, Mode::Filtering);
    assert!(ks.prefix.is_empty());
}

#[test]
fn a_workflow_key_runs_its_workflow() {
    let kl = listener();
    let mut mode = Mode::DashBoard;
    let mut ks = KeyState::default();
    let out = kl.key_down(Key::KeyL, &mut mode, &mut ks);
    assert_eq!(out.signal, Some(AppSignal::RunWorkFlow(2)));
    assert_eq!(mode, Mode::DashBoard);
    // A built-in item bound to the same key as a workflow shadows it.
    let out = kl.key_down(Key::KeyR, &mut mode, &mut ks);
    assert_eq!(out.signal, Some(AppSignal::ScreenShot));
}

#[test]
fn space_leaves_a_menu_and_filtering() {
    let kl = listener();
    let mut mode = Mode::TextActionMenu;
    let mut ks = KeyState::default();
    let out = kl.key_down(Key::Space, &mut mode, &mut ks);
    assert_eq!(out.signal, Some(AppSignal::DeActivate));
    assert_eq!(mode, Mode::Idle);

    let mut mode = Mode::Filtering;
    let out = kl.key_down(Key::Space, &mut mode, &mut ks);
    assert_eq!(out.signal, Some(AppSignal::DeActivate));
    assert_eq!(mode, Mode::Idle);
}

#[test]
fn filtering_sends_typed_keys_and_shift_toggles_ranges() {
    let kl = listener();
    let mut mode = Mode::Filtering;
    let mut ks = KeyState::default();
    let out = kl.key_down(Key::KeyA, &mut mode, &mut ks);
    assert_eq!(out.signal, Some(AppSignal::Filter('A', FilterMode::Generic)));
    let out = kl.key_down(Key::ShiftLeft, &mut mode, &mut ks);
    assert_eq!(out.signal, Some(AppSignal::ToggleMultiSelection));
    let out = kl.key_down(Key::Return, &mut mode, &mut ks);
    assert_eq!(out.signal, Some(AppSignal::MenuRefresh(String::new())));
    assert_eq!(mode, Mode::DashBoard);

    let mut mode = Mode::OCRResultFiltering;
    let out = kl.key_down(Key::Num1, &mut mode, &mut ks);
    assert_eq!(out.signal, Some(AppSignal::Filter('1', FilterMode::OCR)));
}

#[test]
fn an_unfinished_menu_sequence_redraws_the_menu() {
    let kl = listener();
    let mut mode = Mode::Scrolling;
    let mut ks = KeyState::default();
    let out = kl.key_down(Key::KeyG, &mut mode, &mut ks);
    assert_eq!(out.signal, Some(AppSignal::MenuRefresh("G".into())));
    assert_eq!(ks.prefix, "G");
    let out = kl.key_down(Key::Minus, &mut mode, &mut ks);
    assert_eq!(out.signal, Some(AppSignal::MenuRefresh(String::new())));
    kl.key_down(Key::KeyG, &mut mode, &mut ks);
    let out = kl.key_down(Key::KeyG, &mut mode, &mut ks);
    assert_eq!(out.signal, Some(AppSignal::ScrollAction(glyphlow::key_listener::ScrollAction::Top)));
    assert!(ks.prefix.is_empty());
}

#[test]
fn any_key_dismisses_a_notice() {
    let kl = listener();
    let mut mode = Mode::WaitAndDeactivate;
    let mut ks = KeyState::default();
    let out = kl.key_down(Key::KeyQ, &mut mode, &mut ks);
    assert!(out.swallow);
    assert_eq!(out.signal, Some(AppSignal::DeActivate));
    assert_eq!(mode, Mode::Idle);
}

#[test]
fn key_state_tracks_held_keys_and_the_prefix() {
    let mut ks = KeyState::default();
    ks.key_down(&Key::AltLeft);
    ks.key_down(&Key::AltLeft);
    assert_eq!(ks.pressed_keys, vec![Key::AltLeft]);
    ks.key_up(&Key::AltLeft);
    assert!(ks.pressed_keys.is_empty());
    ks.push('A');
    ks.push('B');
    ks.pop();
    assert_eq!(ks.prefix, "A");
    ks.clear_prefix();
    assert!(ks.prefix.is_empty());
    ks.pop();
    assert!(ks.prefix.is_empty());
}

#[test]
fn menus_have_their_items() {
    assert_eq!(dash_board_menu_items().len(), 9);
    assert_eq!(scrollbar_menu_items()[4].key, "GG");
    assert_eq!(text_action_menu_items().len(), 3);
    assert_eq!(image_action_menu_items()[0].action, AppSignal::FrameOCR);
    let item = MenuItem::new("Top", "GG", AppSignal::ScreenShot);
    assert_eq!(item.pretty_print(1), "(_G) Top");
    assert_eq!(item.to_string(), "(GG) Top");
}

#[test]
fn later_entries_shadow_earlier_ones() {
    let table = MenuTable::build(MenuType::Scroll, &GlyphlowConfig::default());
    assert_eq!(table.max_key_len(), 2);
    assert_eq!(table.lookup(&"J".to_string()), Some(AppSignal::ScrollAction(glyphlow::key_listener::ScrollAction::DownRight)));
    assert_eq!(table.lookup(&"Z".to_string()), None);
}

#[test]
fn keys_type_their_characters() {
    assert_eq!(Key::KeyA.to_char(), 'A');
    assert_eq!(Key::Num1.shifted_char(), '!');
    assert_eq!(Key::ControlLeft.to_str(), "CTRL");
    assert_eq!(Key::ShiftLeft.right_alternative(), Some(Key::ShiftRight));
    assert_eq!(Key::KeyA.right_alternative(), None);
}
