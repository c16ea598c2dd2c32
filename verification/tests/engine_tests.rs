use glyphlow::ax_element::Target;
use glyphlow::config::{CommandAction, GlyphlowConfig, RoleOfInterest, VisibilityCheckingLevel, WorkFlow, WorkFlowAction};
use glyphlow::engine::{
    AfterTraversal, ElementMenu, GoBack, HintLabel, MouseButton, MultiSeletionState, NamedRun,
    NotifyLevel, PickAction, Selection, WorkflowStep, app_id_allows, build_menu_message,
    check_word_picker, custom_target_for_role, draw_element_menu, edit_prefix,
    execute_workflow_action, filter_by_key, filtered_hints, format_menu_line, frame_color,
    go_back_in_filtering, handle_traversal_finished, is_workflow_valid, multiselection_allowed,
    notify_timeout_ms, ocr_res_filtering, pick_action, quick_follows, range_role, reload_notice,
    role_satisfied, run_workflow_by_name, search_continues, text_menu_header, toggle_notice,
    traversal_plan, trim_end_newlines, update_hints, utf16_count, workflow_invalid_reason,
};
use glyphlow::key_listener::{FilterMode, MenuItem, Mode, dash_board_menu_items};
use glyphlow::pattern::search_regex;

#[test]
fn a_range_is_the_two_ends_in_the_order_picked() {
    let mut m = MultiSeletionState::default();
    assert!(!m.is_on);
    m.toggle();
    assert!(m.is_on);
    assert_eq!(m.set_one_side(7), None);
    assert_eq!(m.one_side_idx, Some(7));
    assert_eq!(m.set_one_side(3), Some((7, 3)));
    m.clear_one_side();
    assert_eq!(m.one_side_idx, None);
    assert!(m.is_on);
    m.role = Some(RoleOfInterest::StaticText);
    m.reset();
    assert!(!m.is_on && m.role.is_none());
}

#[test]
fn notifications_stay_by_urgency() {
    assert_eq!(notify_timeout_ms(NotifyLevel::Info), 1000);
    assert_eq!(notify_timeout_ms(NotifyLevel::Trace), 1000);
    assert_eq!(notify_timeout_ms(NotifyLevel::Debug), 5000);
    assert_eq!(notify_timeout_ms(NotifyLevel::Warn), 2000);
    assert_eq!(notify_timeout_ms(NotifyLevel::Error), 2000);
}

fn workflow(display: &str, key: &str, role: RoleOfInterest, apps: Option<&[&str]>) -> WorkFlow {
    WorkFlow {
        display: display.to_owned(),
        key: key.to_owned(),
        valid_app_ids: apps.map(|ids| ids.iter().map(|s| s.to_string()).collect()),
        starting_role: role,
        actions: vec![],
    }
}

fn text_selection() -> Option<Selection> {
    Some(Selection { has_element: true, role: RoleOfInterest::StaticText, context: Some("hi 😀".into()) })
}

#[test]
fn workflows_check_app_and_selection() {
    let wf = workflow(" ProofRead ", "R", RoleOfInterest::TextField, Some(&["com.apple.Notes"]));
    assert!(app_id_allows(&wf, "com.apple.Notes"));
    assert!(!app_id_allows(&wf, "com.other"));
    assert!(!role_satisfied(&wf, &text_selection()));
    assert!(!is_workflow_valid(&wf, "com.apple.Notes", &text_selection()));
    assert_eq!(
        workflow_invalid_reason(&wf, "com.other", &None),
        Some("Workflow `ProofRead` does not apply to `com.other`".to_string())
    );
    assert_eq!(
        workflow_invalid_reason(&wf, "com.apple.Notes", &text_selection()),
        Some("Workflow `ProofRead` needs a TextField selection, current selection is StaticText".to_string())
    );
    assert_eq!(
        workflow_invalid_reason(&wf, "com.apple.Notes", &None),
        Some("Workflow `ProofRead` needs a TextField selection, current selection is nothing".to_string())
    );
    let any = workflow("Any", "A", RoleOfInterest::Any, None);
    assert!(is_workflow_valid(&any, "x", &None));
    assert_eq!(workflow_invalid_reason(&any, "x", &None), None);
    let some = workflow("Some", "S", RoleOfInterest::AnySelection, None);
    assert!(!is_workflow_valid(&some, "x", &None));
    assert!(is_workflow_valid(&some, "x", &Some(Selection { has_element: false, role: RoleOfInterest::PseudoText, context: None })));
}

#[test]
fn named_runs_pick_an_element_when_only_the_selection_is_wrong() {
    let wf = workflow("Copy", "C", RoleOfInterest::Image, None);
    match run_workflow_by_name(&wf, "app", &None) {
        NamedRun::PickFirst(t) => assert_eq!(t.role, "image"),
        other => panic!("unexpected {other:?}"),
    }
    let restricted = workflow("Copy", "C", RoleOfInterest::Image, Some(&["a"]));
    match run_workflow_by_name(&restricted, "b", &None) {
        NamedRun::Refuse(m) => assert_eq!(m, "Workflow `Copy` does not apply to `b`"),
        other => panic!("unexpected {other:?}"),
    }
    assert!(matches!(run_workflow_by_name(&workflow("G", "G", RoleOfInterest::Any, None), "a", &None), NamedRun::Run));
    assert_eq!(custom_target_for_role(RoleOfInterest::TextField).unwrap().role, "textfield|textarea|combobox");
    assert!(custom_target_for_role(RoleOfInterest::Generic).is_none());
}

#[test]
fn workflow_steps_follow_the_selection() {
    assert!(matches!(
        execute_workflow_action(&WorkFlowAction::GlyphlowMenu, &None),
        WorkflowStep::OpenMenu { has_selection: false }
    ));
    assert!(matches!(execute_workflow_action(&WorkFlowAction::Sleep(5), &None), WorkflowStep::Sleep(5)));
    assert!(matches!(execute_workflow_action(&WorkFlowAction::Press, &None), WorkflowStep::NoSelection));
    let pseudo = Some(Selection { has_element: false, role: RoleOfInterest::PseudoText, context: None });
    assert!(matches!(execute_workflow_action(&WorkFlowAction::RightClick, &pseudo), WorkflowStep::Click(MouseButton::Right)));
    assert!(matches!(execute_workflow_action(&WorkFlowAction::Press, &pseudo), WorkflowStep::NoElement));
    assert!(matches!(execute_workflow_action(&WorkFlowAction::Debug, &text_selection()), WorkflowStep::Inspect));
    // "hi " is three units, the emoji two.
    assert!(matches!(execute_workflow_action(&WorkFlowAction::SelectAll, &text_selection()), WorkflowStep::SelectAll(5)));
    assert_eq!(utf16_count("a😀é"), 4);
    assert!(search_continues(1));
    assert!(!search_continues(0) && !search_continues(2));
}

fn hints(labels: &[&str]) -> Vec<HintLabel> {
    labels
        .iter()
        .enumerate()
        .map(|(i, l)| HintLabel { idx: i + 10, label: l.to_string(), disabled: false })
        .collect()
}

#[test]
fn typing_edits_the_prefix() {
    let mut p = String::from("A");
    assert!(!edit_prefix(&mut p, 'B', 2, false));
    assert_eq!(p, "AB");
    assert!(!edit_prefix(&mut p, 'C', 2, false));
    assert_eq!(p, "AB", "a full prefix takes no more keys");
    assert!(!edit_prefix(&mut p, 'C', 2, true));
    assert_eq!(p, "ABC", "a search takes any number");
    assert!(!edit_prefix(&mut p, '-', 2, false));
    assert_eq!(p, "AB");
    let mut empty = String::new();
    assert!(edit_prefix(&mut empty, '-', 2, false));
    assert_eq!(empty, "");
}

#[test]
fn a_complete_unique_label_picks_its_element() {
    let hs = hints(&["AA", "AB", "BA"]);
    assert_eq!(filtered_hints(&hs, "A"), vec![0, 1]);
    assert_eq!(filter_by_key(&hs, "A", 2), None);
    assert_eq!(filter_by_key(&hs, "AB", 2), Some(11));
    assert_eq!(filter_by_key(&hs, "CC", 2), None);
    assert_eq!(ocr_res_filtering(&hs, "BA", 2), Some(12));
    assert_eq!(ocr_res_filtering(&hs, "B", 2), None);
}

#[test]
fn visible_hints_follow_prefix_search_and_range() {
    let mut hs = hints(&["AA", "AB", "BA"]);
    hs[1].disabled = true;
    let targets = vec!["alpha".to_string(), "beta".to_string(), "gamma".to_string()];
    let mut multi = MultiSeletionState::default();
    assert_eq!(update_hints(&hs, "", &None, &targets, &multi), vec![0, 2]);
    let search = search_regex("mm");
    assert_eq!(update_hints(&hs, "", &search, &targets, &multi), vec![2]);
    multi.toggle();
    multi.set_one_side(10);
    assert_eq!(update_hints(&hs, "", &None, &targets, &multi), vec![2]);
}

#[test]
fn picking_acts_by_target() {
    assert_eq!(pick_action(&Target::Clickable, false, false, RoleOfInterest::Button), PickAction::PressAndDeactivate);
    assert_eq!(pick_action(&Target::Text, true, true, RoleOfInterest::StaticText), PickAction::PickRangeEnd);
    assert_eq!(pick_action(&Target::Text, false, true, RoleOfInterest::StaticText), PickAction::ShowMenu(RoleOfInterest::StaticText));
    assert_eq!(pick_action(&Target::Text, false, false, RoleOfInterest::StaticText), PickAction::Nothing);
    assert_eq!(pick_action(&Target::Scrollable, false, false, RoleOfInterest::Generic), PickAction::ShowMenu(RoleOfInterest::ScrollBar));
    assert_eq!(range_role(Some(RoleOfInterest::Cell), RoleOfInterest::Cell), Some(RoleOfInterest::Cell));
    assert_eq!(range_role(Some(RoleOfInterest::Cell), RoleOfInterest::Image), None);
}

#[test]
fn going_back_depends_on_the_mode() {
    let mut multi = MultiSeletionState::default();
    assert_eq!(go_back_in_filtering(FilterMode::Generic, true, false, &multi), GoBack::SelectParent);
    assert_eq!(go_back_in_filtering(FilterMode::Generic, false, false, &multi), GoBack::Nothing);
    assert_eq!(go_back_in_filtering(FilterMode::WordPicking, false, true, &multi), GoBack::FinishSearch);
    assert_eq!(go_back_in_filtering(FilterMode::WordPicking, false, false, &multi), GoBack::CloseWordPicker);
    multi.toggle();
    multi.set_one_side(1);
    assert_eq!(go_back_in_filtering(FilterMode::WordPicking, false, false, &multi), GoBack::ClearSideInPicker);
    assert_eq!(go_back_in_filtering(FilterMode::OCR, false, false, &multi), GoBack::ClearSideInTexts);
    assert_eq!(go_back_in_filtering(FilterMode::Generic, false, false, &multi), GoBack::ClearSideInHints);
}

#[test]
fn the_word_picker_settles_on_an_unambiguous_match() {
    let two_copies = vec![(1, "go".to_string()), (4, "go".to_string())];
    assert_eq!(check_word_picker(&two_copies, false, false, "AB", 2, "", "AB"), Some(1));
    assert_eq!(check_word_picker(&two_copies, true, false, "AB", 2, "", "AB"), None);
    assert_eq!(check_word_picker(&two_copies, false, true, "AB", 2, "", "AB"), None);
    assert_eq!(check_word_picker(&two_copies, false, false, "A", 2, "", "A"), None);
    assert_eq!(check_word_picker(&two_copies, false, false, "", 2, "g", ""), Some(1));
    let one = vec![(3, "x".to_string())];
    assert_eq!(check_word_picker(&one, true, false, "AB", 2, "", "AB"), Some(3));
    assert_eq!(check_word_picker(&vec![], false, false, "AB", 2, "", "AB"), None);
}

#[test]
fn menus_are_chosen_by_role_then_target() {
    assert_eq!(draw_element_menu(RoleOfInterest::Image, &Target::Text), (ElementMenu::Image, Mode::ImageActionMenu));
    assert_eq!(draw_element_menu(RoleOfInterest::Generic, &Target::Text), (ElementMenu::Text, Mode::TextActionMenu));
    assert_eq!(draw_element_menu(RoleOfInterest::Generic, &Target::Scrollable), (ElementMenu::Scrolling, Mode::Scrolling));
    assert_eq!(draw_element_menu(RoleOfInterest::Button, &Target::Clickable), (ElementMenu::Dashboard, Mode::DashBoard));
}

#[test]
fn traversals_end_by_target() {
    assert_eq!(
        handle_traversal_finished(&Target::Text, true, false),
        AfterTraversal::Settle { resolve_overlaps: true, show_help: false }
    );
    assert_eq!(
        handle_traversal_finished(&Target::ChildElement, true, false),
        AfterTraversal::Settle { resolve_overlaps: false, show_help: true }
    );
    assert_eq!(handle_traversal_finished(&Target::ImageOCR, false, false), AfterTraversal::RecogniseWindow);
    assert_eq!(handle_traversal_finished(&Target::Scrollable, false, true), AfterTraversal::ScrollMenu);
    assert_eq!(handle_traversal_finished(&Target::Scrollable, false, false), AfterTraversal::NothingFound);
    assert_eq!(handle_traversal_finished(&Target::ChildElement, false, false), AfterTraversal::Wait);
    let (t, focused, level) = traversal_plan(&Target::Edit, VisibilityCheckingLevel::Strict);
    assert_eq!((t, focused, level), (Target::Editable, true, VisibilityCheckingLevel::Strict));
    assert!(quick_follows(&Target::Scrollable));
    assert!(!quick_follows(&Target::Text));
    assert!(multiselection_allowed(&Target::ImageOCR, false));
    assert!(multiselection_allowed(&Target::Clickable, true));
    assert!(!multiselection_allowed(&Target::Clickable, false));
}

#[test]
fn small_notices_and_helpers() {
    assert_eq!(toggle_notice(true), "Multi-selection is now on.");
    assert_eq!(reload_notice(false), ("Restart the app to apply full changes".to_string(), NotifyLevel::Warn));
    assert_eq!(trim_end_newlines("a\n\nb\n\n"), "a\n\nb");
    assert_eq!(text_menu_header("short"), "Pick an Action for Text:\n\nshort\n");
    assert_eq!(
        text_menu_header("0123456789012345678901234567890123"),
        "Pick an Action for Text:\n\n012345678901234567890123456789...\n"
    );
    let mut idx = 0;
    assert_eq!(frame_color(&mut idx, true, 4), Some(1));
    assert_eq!(frame_color(&mut idx, false, 4), None);
    assert_eq!(frame_color(&mut idx, true, 0), None);
    assert_eq!(idx, 2);
}

#[test]
fn menu_lines_align_on_the_longest_key() {
    assert_eq!(format_menu_line("GG", "Top", 1, 3), "\n (_G) Top");
    let mut config = GlyphlowConfig::default();
    config.editor = Some(CommandAction { command: "vi".into(), args: vec![], display: "Vim".into(), key: "V".into() });
    config.workflows = vec![workflow("Any", "AA", RoleOfInterest::Any, None), workflow("Img", "IM", RoleOfInterest::Image, None)];
    let items = vec![MenuItem {
        description: "Copy".into(),
        key: "C".into(),
        action: glyphlow::key_listener::AppSignal::ScreenShot,
    }];
    let msg = build_menu_message("Head:", &items, &config, true, false, true, "app", &None, "");
    assert_eq!(msg, "Head:\n (C) Copy\n (V) Vim\n(AA) Any");
    let msg = build_menu_message("Head:", &items, &config, true, false, true, "app", &None, "A");
    assert_eq!(msg, "Head:\n(_A) Any");
    let msg = build_menu_message("Head:", &items, &config, true, false, true, "app", &None, "Z");
    assert_eq!(msg, "Wrong key sequence\nPress \u{f006e} to go back");
    let dash = build_menu_message("Pick a Target:", &dash_board_menu_items(), &GlyphlowConfig::default(), true, false, true, "app", &None, "T");
    assert!(dash.starts_with("Pick a Target:\n(_) "));
}

use glyphlow::engine::{
    ExternalOutcome, SignalPlan, TEMP_FILE_PLACEHOLDER, TEXT_PLACEHOLDER, command_args, handle_signal,
    spawn_failure_message, take_external_action, workflow_headers, workflow_row,
};
use glyphlow::ipc::{config_dir_from, config_file_in};
use glyphlow::key_listener::AppSignal;

#[test]
fn commands_get_the_text_in_place_of_the_placeholder() {
    let args = vec!["-e".to_string(), "say {glyphlow_text}!".to_string()];
    assert_eq!(command_args(&args, TEXT_PLACEHOLDER, "hi"), vec!["-e", "say hi!"]);
    let args = vec!["{glyphlow_temp_file}".to_string()];
    assert_eq!(command_args(&args, TEMP_FILE_PLACEHOLDER, "/tmp/x.md"), vec!["/tmp/x.md"]);
    let action = CommandAction { command: "echo".into(), args: vec!["a".into(), "b".into()], display: "E".into(), key: "E".into() };
    assert_eq!(spawn_failure_message(&action), "Failed to spawn command: echo a b");
}

#[test]
fn a_command_output_replaces_the_text() {
    assert_eq!(take_external_action(&b"new text\n\n".to_vec(), &vec![]), ExternalOutcome::NewText("new text".into()));
    assert_eq!(take_external_action(&vec![], &b"oops".to_vec()), ExternalOutcome::Failure("External stderr: oops".into()));
    assert_eq!(take_external_action(&vec![], &vec![]), ExternalOutcome::Done);
    assert_eq!(take_external_action(&vec![0xff, b'a'], &vec![]), ExternalOutcome::NewText("\u{fffd}a".into()));
}

#[test]
fn signals_are_planned_from_the_state() {
    assert!(matches!(
        handle_signal(&AppSignal::Activate(Target::Editable), &Target::Clickable, false, false, Mode::Idle),
        SignalPlan::Activate { quick_follow: true, .. }
    ));
    match handle_signal(&AppSignal::ToggleMultiSelection, &Target::Clickable, false, false, Mode::Filtering) {
        SignalPlan::Warn(m) => assert_eq!(m, "Multi selection only works for text."),
        other => panic!("unexpected {other:?}"),
    }
    assert!(matches!(
        handle_signal(&AppSignal::ToggleMultiSelection, &Target::Text, false, false, Mode::Filtering),
        SignalPlan::ToggleMultiSelection
    ));
    assert!(matches!(
        handle_signal(&AppSignal::FrameOCR, &Target::Clickable, false, true, Mode::Idle),
        SignalPlan::RecogniseSelection
    ));
    assert!(matches!(
        handle_signal(&AppSignal::ClearNotification, &Target::Clickable, false, false, Mode::WaitAndDeactivate),
        SignalPlan::DeactivateAfterNotice
    ));
    assert!(matches!(
        handle_signal(&AppSignal::ClearNotification, &Target::Clickable, false, false, Mode::Idle),
        SignalPlan::ClearNotification
    ));
}

#[test]
fn the_workflow_table_has_one_row_per_workflow() {
    assert_eq!(workflow_headers(), vec!["NAME", "KEY", "ROLE", "APPS", "STEPS"]);
    let wf = workflow("ProofRead", "p", RoleOfInterest::Any, None);
    assert_eq!(workflow_row(&wf), vec!["ProofRead", "p", "Any", "any", "0"]);
    let wf = workflow("短", "q", RoleOfInterest::Generic, Some(&["Notes", "Mail"]));
    assert_eq!(workflow_row(&wf), vec!["短", "q", "Generic", "Notes, Mail", "0"]);
}

#[test]
fn the_config_file_lives_in_the_config_dir() {
    assert_eq!(config_dir_from(Some("/x"), Some("/h")), Ok("/x/glyphlow".to_string()));
    assert_eq!(config_dir_from(None, Some("/h")), Ok("/h/.config/glyphlow".to_string()));
    assert_eq!(
        config_dir_from(None, None),
        Err("Need environment variable `XDG_CONFIG_HOME` or `HOME` to load a configurtion file.".to_string())
    );
    assert_eq!(config_file_in("/x/glyphlow"), "/x/glyphlow/config.toml");
}

use glyphlow::engine::{FilterState, execute_workflow};

#[test]
fn closing_forgets_what_was_typed() {
    let mut s = FilterState::new();
    s.hint_prefix.push('A');
    s.search_prefix.push('x');
    s.search_targets.push("t".into());
    s.search_debounce_counter = 3;
    s.is_searching = true;
    s.multi_selection.toggle();
    s.hint_width = 2;
    s.pending_workflow_actions.push(WorkFlowAction::Press);
    s.clear_cache();
    assert!(s.hint_prefix.is_empty() && s.search_prefix.is_empty() && s.search_targets.is_empty());
    assert!(!s.is_searching && !s.multi_selection.is_on && s.search_debounce_counter == 0);
    assert_eq!(s.hint_width, 2);
    assert_eq!(s.pending_workflow_actions.len(), 1);
    assert_eq!(s.deactivate(), Mode::Idle);
    assert_eq!(s.hint_width, 0);
    assert!(s.pending_workflow_actions.is_empty());
}

#[test]
fn a_workflow_runs_only_where_it_applies() {
    let mut wf = workflow("W", "W", RoleOfInterest::Any, None);
    wf.actions = vec![WorkFlowAction::Press, WorkFlowAction::Sleep(3)];
    assert_eq!(execute_workflow(&wf, "app", &None), Ok(vec![WorkFlowAction::Press, WorkFlowAction::Sleep(3)]));
    let img = workflow("I", "I", RoleOfInterest::Image, None);
    assert_eq!(execute_workflow(&img, "app", &None), Err("Wrong key sequence\nPress \u{f006e} to go back".to_string()));
}

#[test]
fn menus_inspection_and_missing_elements_end_a_workflow() {
    assert!(execute_workflow_action(&WorkFlowAction::GlyphlowMenu, &None).halts());
    assert!(execute_workflow_action(&WorkFlowAction::Press, &None).halts());
    assert!(execute_workflow_action(&WorkFlowAction::Debug, &text_selection()).halts());
    assert!(!execute_workflow_action(&WorkFlowAction::Press, &text_selection()).halts());
    assert!(!execute_workflow_action(&WorkFlowAction::Sleep(1), &None).halts());
}
