use glyphlow::ax_element::{ActivationKind, Target, is_meaningless_context, match_helper, role_to_interest};
use glyphlow::config::{CustomTarget, RoleOfInterest};
use glyphlow::element::{CompiledTarget, ElementAttributes, ascii_search_target};
use glyphlow::element_cache::{Admission, Candidate, ElementCache, keeps_element};

#[test]
fn match_helper_is_case_insensitive_substring_with_pipe_alternatives() {
    for (pattern, value, expected) in [
        ("Button", "button", true),
        ("BUTTON", "AXButton", true),
        ("button", "AXBUTTON", true),
        ("menu", "AXMenuItem", true),
        ("", "anything", true),
        ("", "", true),
        ("image", "AXButton", false),
        ("button|textfield", "AXButton", true),
        ("button|textfield", "AXTextField", true),
        ("button | textfield", "AXTextField", true),
    ] {
        assert_eq!(match_helper(pattern, value), expected, "{pattern:?} in {value:?}");
    }
}

#[test]
fn roles_map_to_interests() {
    assert_eq!(role_to_interest("AXImage"), RoleOfInterest::Image);
    assert_eq!(role_to_interest("AXTextArea"), RoleOfInterest::TextField);
    assert_eq!(role_to_interest("AXRadioButton"), RoleOfInterest::Button);
    assert_eq!(role_to_interest("AXHeading"), RoleOfInterest::StaticText);
    assert_eq!(role_to_interest("AXScrollBar"), RoleOfInterest::ScrollBar);
    assert_eq!(role_to_interest("AXGroup"), RoleOfInterest::Generic);
}

#[test]
fn meaningless_texts_are_punctuation_and_space() {
    assert!(is_meaningless_context(""));
    assert!(is_meaningless_context(" ,.;\t"));
    assert!(!is_meaningless_context("a."));
}

#[test]
fn compiled_target_new_valid() {
    let ct = CustomTarget {
        role: "MenuItem".into(),
        subrole: Some("AXContentList".into()),
        label: Some(r"Save.*".into()),
        value: Some(r"\d+".into()),
        title: Some("File".into()),
        description: Some("desc".into()),
        size: Some((100.0f64.to_bits(), 50.0f64.to_bits())),
        action: Some("AXPress".into()),
    };

    let compiled = CompiledTarget::new(&ct).ok().expect("Valid regexes should compile");

    assert_eq!(compiled.role, "MenuItem");
    assert_eq!(compiled.subrole.as_deref(), Some("AXContentList"));
    assert!(compiled.label.is_some());
    assert!(compiled.value.is_some());
    assert!(compiled.title.is_some());
    assert!(compiled.description.is_some());
    assert_eq!(compiled.size, Some((100.0f64.to_bits(), 50.0f64.to_bits())));
    assert_eq!(compiled.action.as_deref(), Some("AXPress"));
}

#[test]
fn compiled_target_new_none_fields() {
    let ct = CustomTarget { role: "AXButton".into(), ..Default::default() };
    let compiled = CompiledTarget::new(&ct).ok().expect("Should compile with all-None optionals");

    assert_eq!(compiled.role, "AXButton");
    assert!(compiled.subrole.is_none());
    assert!(compiled.label.is_none());
    assert!(compiled.value.is_none());
    assert!(compiled.title.is_none());
    assert!(compiled.description.is_none());
    assert!(compiled.size.is_none());
    assert!(compiled.action.is_none());
}

#[test]
fn compiled_target_new_invalid_regex_returns_err() {
    let ct = CustomTarget { role: "Button".into(), title: Some("[invalid".into()), ..Default::default() };
    let err = CompiledTarget::new(&ct).err().expect("Invalid regex should produce an Err");
    assert_eq!(err.pattern, "[invalid");
}

#[test]
fn action_is_kept_verbatim_and_not_split_on_pipe() {
    let ct = CustomTarget {
        role: "MenuItem".into(),
        action: Some("press | highlight".into()),
        ..Default::default()
    };

    let compiled = CompiledTarget::new(&ct).ok().unwrap();
    assert_eq!(compiled.action.as_deref(), Some("press | highlight"));
}

fn attrs() -> ElementAttributes {
    ElementAttributes {
        subrole: Some("AXContentList".into()),
        title: Some("File".into()),
        label: Some("Save As".into()),
        description: None,
        value: Some("42".into()),
        action_names: Some(vec!["AXShowMenu".into(), "AXPress".into()]),
    }
}

#[test]
fn an_element_meets_the_attributes_a_target_asks_for() {
    let ct = CustomTarget {
        role: "MenuItem".into(),
        subrole: Some("contentlist".into()),
        label: Some(r"Save.*".into()),
        value: Some(r"\d+".into()),
        title: Some("Fi".into()),
        action: Some("show|press".into()),
        ..Default::default()
    };
    let compiled = CompiledTarget::new(&ct).ok().unwrap();
    assert!(attrs().match_custom_target(&compiled));

    let mut other = attrs();
    other.value = Some("none".into());
    assert!(!other.match_custom_target(&compiled));

    let with_desc = CompiledTarget::new(&CustomTarget {
        role: "x".into(),
        description: Some("d".into()),
        ..Default::default()
    })
    .ok()
    .unwrap();
    assert!(!attrs().match_custom_target(&with_desc), "a missing attribute fails a pattern");
}

#[test]
fn the_search_text_joins_the_attributes() {
    let a = attrs();
    assert_eq!(a.search_target(), "File Save As 42");
    assert!(a.is_clickable());
    assert_eq!(a.get_string_value_or_description(), Some("42".to_string()));
    assert_eq!(ascii_search_target(&Some("Café".into()), &Some(a)), "cafe");
    assert_eq!(ascii_search_target(&None, &Some(attrs())), "file save as 42");
    assert_eq!(ascii_search_target(&None, &None), "");
}

#[test]
fn activation_kinds_name_their_targets() {
    assert_eq!(ActivationKind::Ocr.to_target(), Target::ImageOCR);
    assert_eq!(ActivationKind::Input.to_target(), Target::Editable);
    assert_eq!(ActivationKind::Editor.to_target(), Target::Edit);
    assert_eq!(ActivationKind::ChildElement.name(), "child-element");
}

fn candidate(role: Option<RoleOfInterest>, context: Option<&str>, too_small: bool, center: (u64, u64)) -> Candidate {
    Candidate {
        role,
        context: context.map(String::from),
        zero_size: false,
        image_too_small: false,
        too_small,
        center,
    }
}

#[test]
fn the_cache_keeps_what_is_worth_a_hint() {
    assert!(keeps_element(&candidate(Some(RoleOfInterest::Generic), None, true, (0, 0))));
    assert!(!keeps_element(&candidate(None, None, false, (0, 0))));
    assert!(!keeps_element(&candidate(Some(RoleOfInterest::StaticText), Some(" . "), false, (0, 0))));
    assert!(keeps_element(&candidate(Some(RoleOfInterest::StaticText), Some("ok"), false, (0, 0))));
    assert!(!keeps_element(&candidate(Some(RoleOfInterest::Button), None, true, (0, 0))));
    let mut custom = candidate(Some(RoleOfInterest::CustomTarget), Some(""), true, (0, 0));
    assert!(keeps_element(&custom));
    custom.zero_size = true;
    assert!(!keeps_element(&custom));
}

#[test]
fn a_shared_centre_replaces_the_kept_element() {
    let mut cache = ElementCache::new();
    let a = candidate(Some(RoleOfInterest::Button), None, false, (1, 2));
    let b = candidate(Some(RoleOfInterest::Button), None, false, (3, 4));
    assert_eq!(cache.add(&a), Admission::Added(0));
    assert_eq!(cache.add(&b), Admission::Added(1));
    assert_eq!(cache.add(&a), Admission::Replaces(0));
    assert_eq!(cache.len(), 2);
    assert_eq!(cache.add_by_target(&a, &Target::ChildElement), Admission::Added(2));
    assert_eq!(cache.add_by_target(&a, &Target::Text), Admission::Replaces(2));
    cache.clear();
    assert_eq!(cache.len(), 0);
    assert_eq!(cache.add(&a), Admission::Added(0));
}

use glyphlow::element::{ElementFacts, Visit, child_found, visit_element};

fn facts(title: Option<&str>, value: Option<&str>, clickable: bool, has_children: bool) -> ElementFacts {
    ElementFacts {
        attrs: ElementAttributes {
            subrole: None,
            title: title.map(String::from),
            label: None,
            description: None,
            value: value.map(String::from),
            action_names: if clickable { Some(vec!["AXPress".into()]) } else { None },
        },
        has_children,
        has_cell_child: false,
    }
}

fn found(v: Visit) -> Option<(RoleOfInterest, Option<String>)> {
    match v {
        Visit::Found(r, c) => Some((r, c)),
        _ => None,
    }
}

#[test]
fn a_search_reports_elements_by_role_and_target() {
    let f = facts(Some("OK"), None, true, false);
    assert_eq!(found(visit_element("AXButton", &Target::Clickable, &f, false)), Some((RoleOfInterest::Button, None)));
    assert_eq!(
        found(visit_element("AXButton", &Target::Text, &f, false)),
        Some((RoleOfInterest::Button, Some("OK".to_string())))
    );
    assert_eq!(found(visit_element("AXButton", &Target::Image, &f, false)), None);
    assert_eq!(
        found(visit_element("AXLink", &Target::Text, &f, false)),
        Some((RoleOfInterest::StaticText, Some("OK".to_string())))
    );
    assert_eq!(found(visit_element("AXGroup", &Target::Clickable, &f, false)), Some((RoleOfInterest::Button, None)));
    assert_eq!(found(visit_element("AXGroup", &Target::ImageOCR, &f, false)), Some((RoleOfInterest::Image, None)));
    let empty_field = facts(None, Some(""), false, false);
    assert_eq!(found(visit_element("AXTextField", &Target::Text, &empty_field, false)), None);
    assert_eq!(
        found(visit_element("AXTextField", &Target::Editable, &empty_field, false)),
        Some((RoleOfInterest::TextField, Some(String::new())))
    );
    assert!(matches!(visit_element("AXWebArea", &Target::Clickable, &f, false), Visit::NarrowWindow));
    assert_eq!(found(visit_element("AXWebArea", &Target::Clickable, &f, true)), Some((RoleOfInterest::Button, None)));
    assert_eq!(found(visit_element("AXScrollBar", &Target::Scrollable, &f, false)), Some((RoleOfInterest::ScrollBar, None)));
    assert_eq!(found(visit_element("AXUnknown", &Target::Clickable, &facts(None, None, false, false), false)), None);
}

#[test]
fn the_explorer_reports_children_with_their_text() {
    let f = facts(None, Some("v"), false, false);
    assert_eq!(child_found("AXStaticText", &f.attrs), (RoleOfInterest::StaticText, Some("v".to_string())));
    assert_eq!(child_found("AXTextArea", &facts(None, None, false, false).attrs), (RoleOfInterest::TextField, Some(String::new())));
    assert_eq!(child_found("AXButton", &f.attrs), (RoleOfInterest::Button, None));
}
