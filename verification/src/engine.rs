//! The engine's decisions: range selection, which workflows apply, what a
//! workflow step needs, and how notifications are timed.
//!
//! The engine itself talks to the accessibility API and draws; each decision
//! it takes is made here from plain values, and the caller carries it out.

use vstd::prelude::*;
use crate::config::{
    CommandAction, GlyphlowConfig, CustomTarget, VisibilityCheckingLevel, KeyBinding, RoleOfInterest, WorkFlow, WorkFlowAction, clone_keys,
    opt_strings_view, target_with,
};
use crate::std_text::chars_of;
use crate::ax_element::{Target, TargetModel};
use crate::css::{replace_all, replace_spec};
use crate::key_listener::{AppSignal, ScrollAction, TextAction, Mode, FilterMode, MenuItem, push_repeated, push_skipped, skip_chars, underscores};
use crate::pattern::{Pattern, join_with, regex_finds};
use crate::text::{starts_with, trim_spec, trim_whitespace};
use crate::utf8::{byte_len, char_utf8_len};

verus! {

/// Picking a range: whether it is on, the end picked first, and that end's
/// role.
#[derive(Debug)]
pub struct MultiSeletionState {
    pub is_on: bool,
    pub one_side_idx: Option<usize>,
    pub role: Option<RoleOfInterest>,
}

impl Default for MultiSeletionState {
    fn default() -> (r: Self)
        ensures
            !r.is_on,
            r.one_side_idx is None,
            r.role is None,
    {
        MultiSeletionState { is_on: false, one_side_idx: None, role: None }
    }
}

/// What picking an end does: the first end is kept, the second completes the
/// range with the first.
pub open spec fn after_side(s: MultiSeletionState, other: usize) -> (
    MultiSeletionState,
    Option<(usize, usize)>,
) {
    match s.one_side_idx {
        Some(one) => (s, Some((one, other))),
        None => (MultiSeletionState { one_side_idx: Some(other), ..s }, None),
    }
}

impl MultiSeletionState {
    /// Switches range picking on or off, forgetting any end picked.
    pub fn toggle(&mut self)
        ensures
            final(self).is_on == !old(self).is_on,
            final(self).one_side_idx is None,
            final(self).role is None,
    {
        self.is_on = !self.is_on;
        self.one_side_idx = None;
        self.role = None;
    }

    /// Switches range picking off, forgetting any end picked.
    pub fn reset(&mut self)
        ensures
            !final(self).is_on,
            final(self).one_side_idx is None,
            final(self).role is None,
    {
        self.is_on = false;
        self.one_side_idx = None;
        self.role = None;
    }

    /// Forgets the end picked first.
    pub fn clear_one_side(&mut self)
        ensures
            final(self).is_on == old(self).is_on,
            final(self).one_side_idx is None,
            final(self).role == old(self).role,
    {
        self.one_side_idx = None;
    }

    /// Picks an end: the first is kept and nothing is returned; the second
    /// returns both ends, the first one first.
    pub fn set_one_side(&mut self, other: usize) -> (r: Option<(usize, usize)>)
        ensures
            (*final(self), r) == after_side(*old(self), other),
    {
        if let Some(one) = self.one_side_idx {
            Some((one, other))
        } else {
            self.one_side_idx = Some(other);
            None
        }
    }
}

/// Picking two ends in turn, from no end picked, gives the range between them
/// in the order they were picked.
pub proof fn law_second_end_completes_range(s: MultiSeletionState, a: usize, b: usize)
    requires
        s.one_side_idx is None,
    ensures
        after_side(s, a).1 is None,
        after_side(after_side(s, a).0, b).1 == Some((a, b)),
        after_side(after_side(s, a).0, b).0.is_on == s.is_on,
{
}

/// How urgent a notification is.
#[derive(Debug, PartialEq, Eq, Clone, Copy, Structural)]
pub enum NotifyLevel {
    Error,
    Warn,
    Info,
    Debug,
    Trace,
}

/// How long a notification stays up, in milliseconds: a second for routine
/// news, five for debugging output, two for warnings and errors.
pub fn notify_timeout_ms(level: NotifyLevel) -> (r: u64)
    ensures
        r == match level {
            NotifyLevel::Trace | NotifyLevel::Info => 1000u64,
            NotifyLevel::Debug => 5000u64,
            _ => 2000u64,
        },
{
    let secs: u64 = match level {
        NotifyLevel::Trace | NotifyLevel::Info => 1,
        NotifyLevel::Debug => 5,
        _ => 2,
    };
    secs * 1000
}

/// What the engine knows of the selected element: whether it is backed by an
/// accessibility element, its role, and its text.
pub struct Selection {
    pub has_element: bool,
    pub role: RoleOfInterest,
    pub context: Option<String>,
}

/// Whether a workflow restricted to `ids`, if it is, applies to `bundle_id`.
pub open spec fn app_allowed(ids: Option<Seq<Seq<char>>>, bundle_id: Seq<char>) -> bool {
    match ids {
        None => true,
        Some(v) => exists|i: int| 0 <= i < v.len() && v[i] == bundle_id,
    }
}

/// Whether the selection meets a workflow's starting role.
pub open spec fn role_met(starting: RoleOfInterest, selected: Option<Selection>) -> bool {
    match starting {
        RoleOfInterest::Any => true,
        RoleOfInterest::AnySelection => selected is Some,
        RoleOfInterest::Generic => match selected {
            Some(s) => s.has_element,
            None => false,
        },
        _ => match selected {
            Some(s) => s.has_element && s.role == starting,
            None => false,
        },
    }
}

/// Whether the workflow's app restriction, if any, admits `bundle_id`.
pub fn app_id_allows(wf: &WorkFlow, bundle_id: &str) -> (r: bool)
    ensures
        r == app_allowed(opt_strings_view(wf.valid_app_ids), bundle_id@),
{
    match &wf.valid_app_ids {
        None => true,
        Some(ids) => {
            let b = String::from_str(bundle_id);
            let ghost v = opt_strings_view(wf.valid_app_ids);
            let mut i: usize = 0;
            while i < ids.len()
                invariant
                    wf.valid_app_ids == Some(*ids),
                    b@ == bundle_id@,
                    i <= ids@.len(),
                    forall|k: int| 0 <= k < i ==> ids@[k]@ != bundle_id@,
                decreases ids@.len() - i,
            {
                if ids[i] == b {
                    assert(opt_strings_view(wf.valid_app_ids)->0[i as int] == bundle_id@);
                    return true;
                }
                i = i + 1;
            }
            false
        },
    }
}

/// Whether the selection meets the workflow's starting role.
pub fn role_satisfied(wf: &WorkFlow, selected: &Option<Selection>) -> (r: bool)
    ensures
        r == role_met(wf.starting_role, *selected),
{
    match wf.starting_role {
        RoleOfInterest::Any => true,
        RoleOfInterest::AnySelection => selected.is_some(),
        RoleOfInterest::Generic => match selected {
            Some(s) => s.has_element,
            None => false,
        },
        _ => match selected {
            Some(s) => s.has_element && s.role == wf.starting_role,
            None => false,
        },
    }
}

/// Whether the workflow can run for the app and the selection.
pub fn is_workflow_valid(wf: &WorkFlow, bundle_id: &str, selected: &Option<Selection>) -> (r: bool)
    ensures
        r == (app_allowed(opt_strings_view(wf.valid_app_ids), bundle_id@) && role_met(
            wf.starting_role,
            *selected,
        )),
{
    app_id_allows(wf, bundle_id) && role_satisfied(wf, selected)
}

/// How a role is written in messages.
pub open spec fn role_name(role: RoleOfInterest) -> Seq<char> {
    match role {
        RoleOfInterest::Button => "Button"@,
        RoleOfInterest::CheckBox => "CheckBox"@,
        RoleOfInterest::Generic => "Generic"@,
        RoleOfInterest::Any => "Any"@,
        RoleOfInterest::AnySelection => "Some"@,
        RoleOfInterest::Image => "Image"@,
        RoleOfInterest::MenuItem => "MenuItem"@,
        RoleOfInterest::ScrollBar => "ScrollBar"@,
        RoleOfInterest::StaticText => "StaticText"@,
        RoleOfInterest::TextField => "TextField"@,
        RoleOfInterest::PseudoText => "PseudoText"@,
        RoleOfInterest::Cell => "Cell"@,
        RoleOfInterest::CustomTarget => "CustomTarget"@,
    }
}

/// The name of a role in messages.
pub fn role_label(role: RoleOfInterest) -> (r: String)
    ensures
        r@ == role_name(role),
{
    let s = match role {
        RoleOfInterest::Button => "Button",
        RoleOfInterest::CheckBox => "CheckBox",
        RoleOfInterest::Generic => "Generic",
        RoleOfInterest::Any => "Any",
        RoleOfInterest::AnySelection => "Some",
        RoleOfInterest::Image => "Image",
        RoleOfInterest::MenuItem => "MenuItem",
        RoleOfInterest::ScrollBar => "ScrollBar",
        RoleOfInterest::StaticText => "StaticText",
        RoleOfInterest::TextField => "TextField",
        RoleOfInterest::PseudoText => "PseudoText",
        RoleOfInterest::Cell => "Cell",
        RoleOfInterest::CustomTarget => "CustomTarget",
    };
    String::from_str(s)
}

/// Why a workflow cannot run: the app is not one it applies to, or the
/// selection does not meet its starting role.
pub open spec fn invalid_reason(
    wf: WorkFlow,
    bundle_id: Seq<char>,
    selected: Option<Selection>,
) -> Option<Seq<char>> {
    let name = trim_spec(wf.display@);
    if !app_allowed(opt_strings_view(wf.valid_app_ids), bundle_id) {
        Some("Workflow `"@ + name + "` does not apply to `"@ + bundle_id + "`"@)
    } else if role_met(wf.starting_role, selected) {
        None
    } else {
        let current = match selected {
            Some(s) => role_name(s.role),
            None => "nothing"@,
        };
        Some(
            "Workflow `"@ + name + "` needs a "@ + role_name(wf.starting_role)
                + " selection, current selection is "@ + current,
        )
    }
}

/// Why the workflow cannot run for the app and the selection, if it cannot.
pub fn workflow_invalid_reason(wf: &WorkFlow, bundle_id: &str, selected: &Option<Selection>) -> (r:
    Option<String>)
    ensures
        match r {
            Some(m) => invalid_reason(*wf, bundle_id@, *selected) == Some(m@),
            None => invalid_reason(*wf, bundle_id@, *selected) is None,
        },
{
    let name = trim_whitespace(wf.display.as_str());
    if !app_id_allows(wf, bundle_id) {
        let mut m = String::from_str("Workflow `");
        m.append(name.as_str());
        m.append("` does not apply to `");
        m.append(bundle_id);
        m.append("`");
        return Some(m);
    }
    if role_satisfied(wf, selected) {
        return None;
    }
    let current = match selected {
        Some(s) => role_label(s.role),
        None => String::from_str("nothing"),
    };
    let mut m = String::from_str("Workflow `");
    m.append(name.as_str());
    m.append("` needs a ");
    m.append(role_label(wf.starting_role).as_str());
    m.append(" selection, current selection is ");
    m.append(current.as_str());
    Some(m)
}

/// The accessibility roles, as alternatives, behind a workflow's starting
/// role; none for the roles no single element kind stands for.
pub open spec fn role_pattern(role: RoleOfInterest) -> Option<Seq<char>> {
    match role {
        RoleOfInterest::Button => Some("button"@),
        RoleOfInterest::CheckBox => Some("checkbox"@),
        RoleOfInterest::Image => Some("image"@),
        RoleOfInterest::MenuItem => Some("menuitem"@),
        RoleOfInterest::ScrollBar => Some("scrollbar"@),
        RoleOfInterest::StaticText => Some("statictext|heading"@),
        RoleOfInterest::TextField => Some("textfield|textarea|combobox"@),
        RoleOfInterest::Cell => Some("cell"@),
        _ => None,
    }
}

/// A custom target for the elements behind a workflow's starting role, so
/// that they can be offered for picking.
pub fn custom_target_for_role(role: RoleOfInterest) -> (r: Option<CustomTarget>)
    ensures
        match role_pattern(role) {
            Some(p) => r matches Some(t) && t@ == target_with(p, None),
            None => r is None,
        },
{
    let pattern = match role {
        RoleOfInterest::Button => "button",
        RoleOfInterest::CheckBox => "checkbox",
        RoleOfInterest::Image => "image",
        RoleOfInterest::MenuItem => "menuitem",
        RoleOfInterest::ScrollBar => "scrollbar",
        RoleOfInterest::StaticText => "statictext|heading",
        RoleOfInterest::TextField => "textfield|textarea|combobox",
        RoleOfInterest::Cell => "cell",
        _ => return None,
    };
    let mut t = CustomTarget::default();
    t.role = String::from_str(pattern);
    Some(t)
}

/// A mouse button.
#[derive(Debug, PartialEq, Eq, Clone, Copy, Structural)]
pub enum MouseButton {
    Left,
    Right,
    Middle,
}

/// What one workflow action comes to, given the selection.
#[derive(Debug)]
pub enum WorkflowStep {
    /// Open the menu for the selection, or the dashboard when nothing is
    /// selected; the rest of the workflow is dropped.
    OpenMenu { has_selection: bool },
    Sleep(u64),
    /// Search for the target and pick it where it is the only match.
    Search(CustomTarget),
    /// Move the mouse to the point whose coordinates have these bit patterns.
    MoveMouse(u64, u64),
    /// Press the keys in order, then release them in reverse.
    KeyCombo(KeyBinding),
    /// The action needs a selected element and there is none.
    NoSelection,
    /// Move the mouse to the selection's centre.
    Hover,
    /// Click the selection's centre.
    Click(MouseButton),
    /// The action needs an accessibility element and the selection has none.
    NoElement,
    Focus,
    Press,
    ShowMenu,
    /// Select the parent element and explore its children.
    GoParent,
    /// Show the element's attributes; the rest of the workflow is dropped.
    Inspect,
    /// Select the element's whole text, which is this many UTF-16 units long.
    SelectAll(usize),
}

/// Whether the workflow stops after the step, before looking at the outcome
/// of a search.
pub open spec fn step_halts(step: WorkflowStep) -> bool {
    match step {
        WorkflowStep::OpenMenu { .. } | WorkflowStep::NoSelection | WorkflowStep::NoElement
        | WorkflowStep::Inspect => true,
        _ => false,
    }
}

impl WorkflowStep {
    /// Whether the workflow stops after this step: opening the menu and
    /// inspecting end it, and so does a step that cannot be taken.
    pub fn halts(&self) -> (r: bool)
        ensures
            r == step_halts(*self),
    {
        matches!(
            self,
            WorkflowStep::OpenMenu { .. } | WorkflowStep::NoSelection | WorkflowStep::NoElement
                | WorkflowStep::Inspect
        )
    }
}

/// `n`, or `usize::MAX` where it is larger.
pub open spec fn saturate(n: nat) -> usize {
    if n > usize::MAX {
        usize::MAX
    } else {
        n as usize
    }
}

/// How many UTF-16 units `s` takes, or `usize::MAX` where that is more.
pub fn utf16_count(s: &str) -> (r: usize)
    ensures
        r == saturate(crate::utf8::utf16_len(s@)),
{
    let v = chars_of(s);
    let mut n: usize = 0;
    let mut i: usize = 0;
    while i < v.len()
        invariant
            v@ == s@,
            i <= v@.len(),
            n == saturate(crate::utf8::utf16_len(s@.take(i as int))),
        decreases v@.len() - i,
    {
        assert(s@.take(i + 1).drop_last() =~= s@.take(i as int));
        assert(s@.take(i + 1).last() == v@[i as int]);
        let units: usize = if (v[i] as u32) <= 0xFFFF {
            1
        } else {
            2
        };
        if n > usize::MAX - units {
            n = usize::MAX;
        } else {
            n = n + units;
        }
        i = i + 1;
    }
    assert(s@.take(i as int) =~= s@);
    n
}

/// The step for a workflow action, given the selection.
pub open spec fn step_for(act: WorkFlowAction, selected: Option<Selection>) -> WorkflowStepModel {
    match act {
        WorkFlowAction::GlyphlowMenu => WorkflowStepModel::OpenMenu(selected is Some),
        WorkFlowAction::Sleep(ms) => WorkflowStepModel::Sleep(ms),
        WorkFlowAction::SearchFor(ct) => WorkflowStepModel::Search(ct@),
        WorkFlowAction::Move(x, y) => WorkflowStepModel::MoveMouse(x, y),
        WorkFlowAction::KeyCombo(kb) => WorkflowStepModel::KeyCombo(kb@),
        _ => match selected {
            None => WorkflowStepModel::NoSelection,
            Some(s) => match act {
                WorkFlowAction::Hover => WorkflowStepModel::Hover,
                WorkFlowAction::Click => WorkflowStepModel::Click(MouseButton::Left),
                WorkFlowAction::RightClick => WorkflowStepModel::Click(MouseButton::Right),
                WorkFlowAction::MiddleClick => WorkflowStepModel::Click(MouseButton::Middle),
                _ => if !s.has_element {
                    WorkflowStepModel::NoElement
                } else {
                    match act {
                        WorkFlowAction::Focus => WorkflowStepModel::Focus,
                        WorkFlowAction::Press => WorkflowStepModel::Press,
                        WorkFlowAction::ShowMenu => WorkflowStepModel::ShowMenu,
                        WorkFlowAction::GoParent => WorkflowStepModel::GoParent,
                        WorkFlowAction::Debug => WorkflowStepModel::Inspect,
                        _ => WorkflowStepModel::SelectAll(
                            match s.context {
                                Some(t) => saturate(crate::utf8::utf16_len(t@)),
                                None => 0usize,
                            },
                        ),
                    }
                },
            },
        },
    }
}

pub enum WorkflowStepModel {
    OpenMenu(bool),
    Sleep(u64),
    Search(crate::config::CustomTargetModel),
    MoveMouse(u64, u64),
    KeyCombo(Seq<crate::keys::Key>),
    NoSelection,
    Hover,
    Click(MouseButton),
    NoElement,
    Focus,
    Press,
    ShowMenu,
    GoParent,
    Inspect,
    SelectAll(usize),
}

impl View for WorkflowStep {
    type V = WorkflowStepModel;

    open spec fn view(&self) -> WorkflowStepModel {
        match self {
            WorkflowStep::OpenMenu { has_selection } => WorkflowStepModel::OpenMenu(*has_selection),
            WorkflowStep::Sleep(ms) => WorkflowStepModel::Sleep(*ms),
            WorkflowStep::Search(ct) => WorkflowStepModel::Search(ct@),
            WorkflowStep::MoveMouse(x, y) => WorkflowStepModel::MoveMouse(*x, *y),
            WorkflowStep::KeyCombo(kb) => WorkflowStepModel::KeyCombo(kb@),
            WorkflowStep::NoSelection => WorkflowStepModel::NoSelection,
            WorkflowStep::Hover => WorkflowStepModel::Hover,
            WorkflowStep::Click(b) => WorkflowStepModel::Click(*b),
            WorkflowStep::NoElement => WorkflowStepModel::NoElement,
            WorkflowStep::Focus => WorkflowStepModel::Focus,
            WorkflowStep::Press => WorkflowStepModel::Press,
            WorkflowStep::ShowMenu => WorkflowStepModel::ShowMenu,
            WorkflowStep::GoParent => WorkflowStepModel::GoParent,
            WorkflowStep::Inspect => WorkflowStepModel::Inspect,
            WorkflowStep::SelectAll(n) => WorkflowStepModel::SelectAll(*n),
        }
    }
}

/// What a workflow action comes to for the selection: actions that need no
/// selection first, then those that need one, then those that need an
/// accessibility element.
pub fn execute_workflow_action(act: &WorkFlowAction, selected: &Option<Selection>) -> (r: WorkflowStep)
    ensures
        r@ == step_for(*act, *selected),
{
    match act {
        WorkFlowAction::GlyphlowMenu => {
            return WorkflowStep::OpenMenu { has_selection: selected.is_some() };
        },
        WorkFlowAction::Sleep(ms) => {
            return WorkflowStep::Sleep(*ms);
        },
        WorkFlowAction::SearchFor(ct) => {
            return WorkflowStep::Search(ct.clone());
        },
        WorkFlowAction::Move(x, y) => {
            return WorkflowStep::MoveMouse(*x, *y);
        },
        WorkFlowAction::KeyCombo(kb) => {
            return WorkflowStep::KeyCombo(kb.clone());
        },
        _ => {},
    }
    let s = match selected {
        None => {
            return WorkflowStep::NoSelection;
        },
        Some(s) => s,
    };
    match act {
        WorkFlowAction::Hover => {
            return WorkflowStep::Hover;
        },
        WorkFlowAction::Click => {
            return WorkflowStep::Click(MouseButton::Left);
        },
        WorkFlowAction::RightClick => {
            return WorkflowStep::Click(MouseButton::Right);
        },
        WorkFlowAction::MiddleClick => {
            return WorkflowStep::Click(MouseButton::Middle);
        },
        _ => {},
    }
    if !s.has_element {
        return WorkflowStep::NoElement;
    }
    match act {
        WorkFlowAction::Focus => WorkflowStep::Focus,
        WorkFlowAction::Press => WorkflowStep::Press,
        WorkFlowAction::ShowMenu => WorkflowStep::ShowMenu,
        WorkFlowAction::GoParent => WorkflowStep::GoParent,
        WorkFlowAction::Debug => WorkflowStep::Inspect,
        _ => WorkflowStep::SelectAll(
            match &s.context {
                Some(t) => utf16_count(t.as_str()),
                None => 0,
            },
        ),
    }
}

/// Whether the workflow goes on after a search that found `found` elements:
/// only a single match is picked and acted on.
pub fn search_continues(found: usize) -> (r: bool)
    ensures
        r == (found == 1),
{
    found == 1
}

/// How a workflow addressed by name is run.
#[derive(Debug)]
pub enum NamedRun {
    /// It applies as things are: run its actions.
    Run,
    /// Only the selection is wrong: offer the elements behind its starting
    /// role for picking, and run it on the one picked.
    PickFirst(CustomTarget),
    /// It cannot run, for this reason.
    Refuse(String),
}

/// How the workflow is run by name: at once where it applies; by offering
/// elements of its starting role where only the selection is wrong and the
/// role stands for an element kind; else refused with the reason.
pub fn run_workflow_by_name(wf: &WorkFlow, bundle_id: &str, selected: &Option<Selection>) -> (r:
    NamedRun)
    ensures
        ({
            let allowed = app_allowed(opt_strings_view(wf.valid_app_ids), bundle_id@);
            let met = role_met(wf.starting_role, *selected);
            match r {
                NamedRun::Run => allowed && met,
                NamedRun::PickFirst(t) => allowed && !met && (role_pattern(wf.starting_role)
                    matches Some(p) && t@ == target_with(p, None)),
                NamedRun::Refuse(m) => !(allowed && met) && !(allowed && role_pattern(
                    wf.starting_role,
                ) is Some) && invalid_reason(*wf, bundle_id@, *selected) == Some(m@),
            }
        }),
{
    if is_workflow_valid(wf, bundle_id, selected) {
        return NamedRun::Run;
    }
    if app_id_allows(wf, bundle_id) {
        if let Some(t) = custom_target_for_role(wf.starting_role) {
            return NamedRun::PickFirst(t);
        }
    }
    match workflow_invalid_reason(wf, bundle_id, selected) {
        Some(m) => NamedRun::Refuse(m),
        None => NamedRun::Refuse(String::new()),
    }
}

/// A hint on screen: the element it labels, its label, and whether it was
/// set aside as covered.
pub struct HintLabel {
    pub idx: usize,
    pub label: String,
    pub disabled: bool,
}

/// How many bytes `s` takes, or `usize::MAX` where that is more.
pub fn byte_count(s: &str) -> (r: usize)
    ensures
        r == saturate(byte_len(s@)),
{
    let v = chars_of(s);
    let mut n: usize = 0;
    let mut i: usize = 0;
    while i < v.len()
        invariant
            v@ == s@,
            i <= v@.len(),
            n == saturate(byte_len(s@.take(i as int))),
        decreases v@.len() - i,
    {
        assert(s@.take(i + 1).drop_last() =~= s@.take(i as int));
        assert(s@.take(i + 1).last() == v@[i as int]);
        let b = char_utf8_len(v[i]);
        if n > usize::MAX - b {
            n = usize::MAX;
        } else {
            n = n + b;
        }
        i = i + 1;
    }
    assert(s@.take(i as int) =~= s@);
    n
}

/// Whether the typed prefix is as long, in bytes, as every label (counted up
/// to `usize::MAX`).
pub open spec fn prefix_complete(prefix: Seq<char>, hint_width: u32) -> bool {
    saturate(byte_len(prefix)) == hint_width as usize
}

/// The prefix after typing `c` while filtering: `-` takes a key back, any
/// other key is added while the prefix is shorter than a label or a search
/// is being typed. `-` on an empty prefix leaves it and asks to go back.
pub open spec fn prefix_after(prefix: Seq<char>, c: char, hint_width: u32, searching: bool) -> (
    Seq<char>,
    bool,
) {
    if c == '-' {
        if prefix.len() == 0 {
            (prefix, true)
        } else {
            (prefix.drop_last(), false)
        }
    } else if byte_len(prefix) < hint_width as nat || searching {
        (prefix.push(c), false)
    } else {
        (prefix, false)
    }
}

/// Applies a key typed while filtering to the prefix; true when it asks to
/// go back a level instead.
pub fn edit_prefix(prefix: &mut String, key_char: char, hint_width: u32, searching: bool) -> (go_back:
    bool)
    ensures
        (final(prefix)@, go_back) == prefix_after(old(prefix)@, key_char, hint_width, searching),
{
    if key_char == '-' {
        if prefix.as_str().unicode_len() == 0 {
            return true;
        }
        let _ = prefix.pop();
        false
    } else {
        if byte_count(prefix.as_str()) < hint_width as usize || searching {
            prefix.push(key_char);
        }
        false
    }
}

/// The positions of the hints whose label begins with `prefix`, in order.
pub open spec fn matching_positions(hints: Seq<HintLabel>, prefix: Seq<char>, n: int) -> Seq<usize>
    decreases n,
{
    if n <= 0 {
        Seq::empty()
    } else {
        let before = matching_positions(hints, prefix, n - 1);
        if prefix.is_prefix_of(hints[n - 1].label@) {
            before.push((n - 1) as usize)
        } else {
            before
        }
    }
}

/// The positions of the hints whose label begins with `prefix`.
pub fn filtered_hints(hints: &Vec<HintLabel>, prefix: &str) -> (r: Vec<usize>)
    ensures
        r@ == matching_positions(hints@, prefix@, hints@.len() as int),
        forall|k: int| 0 <= k < r@.len() ==> (#[trigger] r@[k] as int) < hints@.len(),
{
    let mut r: Vec<usize> = Vec::new();
    let mut i: usize = 0;
    while i < hints.len()
        invariant
            i <= hints@.len(),
            r@ == matching_positions(hints@, prefix@, i as int),
            forall|k: int| 0 <= k < r@.len() ==> (#[trigger] r@[k] as int) < i,
        decreases hints@.len() - i,
    {
        if starts_with(hints[i].label.as_str(), prefix) {
            r.push(i);
        }
        i = i + 1;
    }
    r
}

/// The element picked by the prefix while filtering elements: there is one
/// once the prefix is a whole label and exactly one hint still matches it.
pub fn filter_by_key(hints: &Vec<HintLabel>, prefix: &str, hint_width: u32) -> (r: Option<usize>)
    ensures
        ({
            let m = matching_positions(hints@, prefix@, hints@.len() as int);
            if prefix_complete(prefix@, hint_width) && m.len() == 1 {
                r == Some(hints@[m[0] as int].idx)
            } else {
                r is None
            }
        }),
{
    let m = filtered_hints(hints, prefix);
    if byte_count(prefix) == hint_width as usize && m.len() == 1 {
        Some(hints[m[0]].idx)
    } else {
        None
    }
}

/// The text picked by the prefix among recognised texts: the first hint that
/// still matches, once the prefix is a whole label.
pub fn ocr_res_filtering(hints: &Vec<HintLabel>, prefix: &str, hint_width: u32) -> (r: Option<usize>)
    ensures
        ({
            let m = matching_positions(hints@, prefix@, hints@.len() as int);
            if prefix_complete(prefix@, hint_width) && m.len() > 0 {
                r == Some(hints@[m[0] as int].idx)
            } else {
                r is None
            }
        }),
{
    let m = filtered_hints(hints, prefix);
    if byte_count(prefix) == hint_width as usize && m.len() > 0 {
        Some(hints[m[0]].idx)
    } else {
        None
    }
}

/// Whether the hint at `pos` stays visible: not set aside, its label begins
/// with the prefix, its element's text matches the search where there is
/// one, and it is not the end of a range already picked.
pub open spec fn hint_shown(
    hints: Seq<HintLabel>,
    pos: int,
    prefix: Seq<char>,
    search: Option<Seq<char>>,
    targets: Seq<String>,
    multi: MultiSeletionState,
) -> bool {
    let hb = hints[pos];
    let selected_side = multi.is_on && multi.one_side_idx == Some(hb.idx);
    let found = match search {
        None => true,
        Some(p) => pos < targets.len() && regex_finds(p, targets[pos]@),
    };
    !hb.disabled && prefix.is_prefix_of(hb.label@) && found && !selected_side
}

/// The positions of the first `n` hints that stay visible.
pub open spec fn shown_positions(
    hints: Seq<HintLabel>,
    n: int,
    prefix: Seq<char>,
    search: Option<Seq<char>>,
    targets: Seq<String>,
    multi: MultiSeletionState,
) -> Seq<usize>
    decreases n,
{
    if n <= 0 {
        Seq::empty()
    } else {
        let before = shown_positions(hints, n - 1, prefix, search, targets, multi);
        if hint_shown(hints, n - 1, prefix, search, targets, multi) {
            before.push((n - 1) as usize)
        } else {
            before
        }
    }
}

/// Whether the hint at `pos` may stay visible, said property by property.
pub open spec fn hint_may_show(
    hints: Seq<HintLabel>,
    pos: int,
    prefix: Seq<char>,
    search: Option<Seq<char>>,
    targets: Seq<String>,
    multi: MultiSeletionState,
) -> bool {
    &&& !hints[pos].disabled
    &&& prefix.is_prefix_of(hints[pos].label@)
    &&& (search matches Some(p) ==> pos < targets.len() && regex_finds(p, targets[pos]@))
    &&& !(multi.is_on && multi.one_side_idx == Some(hints[pos].idx))
}

/// The visible hints are exactly, in order, those not set aside whose label
/// begins with the typed prefix, whose element's text the search finds where
/// there is a search, and that are not the range end already picked.
pub proof fn law_visible_hints(
    hints: Seq<HintLabel>,
    n: int,
    prefix: Seq<char>,
    search: Option<Seq<char>>,
    targets: Seq<String>,
    multi: MultiSeletionState,
)
    requires
        0 <= n <= hints.len(),
        n <= usize::MAX,
    ensures
        forall|k: int|
            0 <= k < shown_positions(hints, n, prefix, search, targets, multi).len() ==> {
                let p = #[trigger] shown_positions(hints, n, prefix, search, targets, multi)[k] as int;
                &&& 0 <= p < n
                &&& hint_may_show(hints, p, prefix, search, targets, multi)
            },
        forall|p: int|
            0 <= p < n && hint_may_show(hints, p, prefix, search, targets, multi) ==> shown_positions(
                hints,
                n,
                prefix,
                search,
                targets,
                multi,
            ).contains(p as usize),
        forall|a: int, b: int|
            0 <= a < b < shown_positions(hints, n, prefix, search, targets, multi).len() ==> (
            #[trigger] shown_positions(hints, n, prefix, search, targets, multi)[a]) < (
            #[trigger] shown_positions(hints, n, prefix, search, targets, multi)[b]),
    decreases n,
{
    if n > 0 {
        law_visible_hints(hints, n - 1, prefix, search, targets, multi);
        let before = shown_positions(hints, n - 1, prefix, search, targets, multi);
        let now = shown_positions(hints, n, prefix, search, targets, multi);
        let shown = hint_shown(hints, n - 1, prefix, search, targets, multi);
        assert(shown == hint_may_show(hints, n - 1, prefix, search, targets, multi));
        if shown {
            assert(now == before.push((n - 1) as usize));
            assert forall|p: int|
                0 <= p < n && hint_may_show(hints, p, prefix, search, targets, multi) implies now.contains(
                p as usize,
            ) by {
                if p < n - 1 {
                    let k = choose|k: int| 0 <= k < before.len() && before[k] == p as usize;
                    assert(now[k] == p as usize);
                } else {
                    assert(now[before.len() as int] == p as usize);
                }
            }
        } else {
            assert(now == before);
        }
    }
}

/// The hints a prefix leaves are exactly, in order, those whose label begins
/// with it.
pub proof fn law_matching_positions(hints: Seq<HintLabel>, prefix: Seq<char>, n: int)
    requires
        0 <= n <= hints.len(),
        n <= usize::MAX,
    ensures
        forall|k: int|
            0 <= k < matching_positions(hints, prefix, n).len() ==> {
                let p = #[trigger] matching_positions(hints, prefix, n)[k] as int;
                &&& 0 <= p < n
                &&& prefix.is_prefix_of(hints[p].label@)
            },
        forall|p: int|
            0 <= p < n && prefix.is_prefix_of(hints[p].label@) ==> matching_positions(
                hints,
                prefix,
                n,
            ).contains(p as usize),
        forall|a: int, b: int|
            0 <= a < b < matching_positions(hints, prefix, n).len() ==> (
            #[trigger] matching_positions(hints, prefix, n)[a]) < (#[trigger] matching_positions(
                hints,
                prefix,
                n,
            )[b]),
    decreases n,
{
    if n > 0 {
        law_matching_positions(hints, prefix, n - 1);
        let before = matching_positions(hints, prefix, n - 1);
        let now = matching_positions(hints, prefix, n);
        if prefix.is_prefix_of(hints[n - 1].label@) {
            assert(now == before.push((n - 1) as usize));
            assert forall|p: int|
                0 <= p < n && prefix.is_prefix_of(hints[p].label@) implies now.contains(p as usize) by {
                if p < n - 1 {
                    let k = choose|k: int| 0 <= k < before.len() && before[k] == p as usize;
                    assert(now[k] == p as usize);
                } else {
                    assert(now[before.len() as int] == p as usize);
                }
            }
        } else {
            assert(now == before);
        }
    }
}

/// A complete label picks the element of the one hint it names: the picked
/// element's hint has that label as its prefix, no other hint does, and the
/// prefix is as long as a label.
pub proof fn law_unique_pick(hints: Seq<HintLabel>, prefix: Seq<char>, hint_width: u32)
    requires
        hints.len() <= usize::MAX,
    ensures
        ({
            let m = matching_positions(hints, prefix, hints.len() as int);
            prefix_complete(prefix, hint_width) && m.len() == 1 ==> {
                &&& 0 <= m[0] < hints.len()
                &&& prefix.is_prefix_of(hints[m[0] as int].label@)
                &&& forall|p: int|
                    0 <= p < hints.len() && p != m[0] ==> !prefix.is_prefix_of(
                        #[trigger] hints[p].label@,
                    )
            }
        }),
{
    law_matching_positions(hints, prefix, hints.len() as int);
    let m = matching_positions(hints, prefix, hints.len() as int);
    if m.len() == 1 {
        assert(0 <= m[0] < hints.len());
        assert forall|p: int|
            0 <= p < hints.len() && p != m[0] implies !prefix.is_prefix_of(#[trigger] hints[p].label@) by {
            if prefix.is_prefix_of(hints[p].label@) {
                assert(m.contains(p as usize));
            }
        }
    }
}

pub open spec fn opt_pattern(p: Option<Pattern>) -> Option<Seq<char>> {
    match p {
        Some(p) => Some(p@),
        None => None,
    }
}

/// The positions of the hints left visible by the prefix, the search over
/// the elements' texts, and the range picking.
pub fn update_hints(
    hints: &Vec<HintLabel>,
    prefix: &str,
    search: &Option<Pattern>,
    targets: &Vec<String>,
    multi: &MultiSeletionState,
) -> (r: Vec<usize>)
    ensures
        r@ == shown_positions(hints@, hints@.len() as int, prefix@, opt_pattern(*search), targets@, *multi),
{
    let mut r: Vec<usize> = Vec::new();
    let mut i: usize = 0;
    while i < hints.len()
        invariant
            i <= hints@.len(),
            r@ == shown_positions(hints@, i as int, prefix@, opt_pattern(*search), targets@, *multi),
        decreases hints@.len() - i,
    {
        let hb = &hints[i];
        let selected_side = multi.is_on && match multi.one_side_idx {
            Some(o) => o == hb.idx,
            None => false,
        };
        let found = match search {
            None => true,
            Some(p) => i < targets.len() && p.is_match(targets[i].as_str()),
        };
        if !hb.disabled && starts_with(hb.label.as_str(), prefix) && found && !selected_side {
            r.push(i);
        }
        i = i + 1;
    }
    r
}

/// What picking an element does, by what the activation was looking for.
#[derive(Debug, PartialEq, Eq, Clone, Copy, Structural)]
pub enum PickAction {
    /// Press the element, then close.
    PressAndDeactivate,
    /// Select the element and show the actions for this role.
    ShowMenu(RoleOfInterest),
    /// Select the element and run the rest of the pending workflow.
    RunPending,
    /// Recognise the text in the element's frame.
    RecogniseText,
    /// Keep the element as one end of a range.
    PickRangeEnd,
    /// Select the element and explore its children.
    ExploreChildren,
    /// Focus the element, then close.
    FocusAndDeactivate,
    /// Open the element's text in the editor.
    EditText,
    Nothing,
}

/// The action for a picked element with `role`, given the activation target,
/// whether a range is being picked, and whether the element has text.
pub open spec fn pick_spec(target: TargetModel, multi_on: bool, has_context: bool, role: RoleOfInterest) -> PickAction {
    match target {
        TargetModel::Clickable => PickAction::PressAndDeactivate,
        TargetModel::Image => PickAction::ShowMenu(role),
        TargetModel::Custom(_) => PickAction::RunPending,
        TargetModel::ImageOCR => PickAction::RecogniseText,
        TargetModel::Text => if multi_on {
            PickAction::PickRangeEnd
        } else if has_context {
            PickAction::ShowMenu(role)
        } else {
            PickAction::Nothing
        },
        TargetModel::ChildElement => PickAction::ExploreChildren,
        TargetModel::Scrollable => PickAction::ShowMenu(RoleOfInterest::ScrollBar),
        TargetModel::Editable => PickAction::FocusAndDeactivate,
        TargetModel::Edit => PickAction::EditText,
    }
}

/// What to do with the element picked while filtering.
pub fn pick_action(target: &Target, multi_on: bool, has_context: bool, role: RoleOfInterest) -> (r: PickAction)
    ensures
        r == pick_spec(target@, multi_on, has_context, role),
{
    match target {
        Target::Clickable => PickAction::PressAndDeactivate,
        Target::Image => PickAction::ShowMenu(role),
        Target::Custom(_) => PickAction::RunPending,
        Target::ImageOCR => PickAction::RecogniseText,
        Target::Text => if multi_on {
            PickAction::PickRangeEnd
        } else if has_context {
            PickAction::ShowMenu(role)
        } else {
            PickAction::Nothing
        },
        Target::ChildElement => PickAction::ExploreChildren,
        Target::Scrollable => PickAction::ShowMenu(RoleOfInterest::ScrollBar),
        Target::Editable => PickAction::FocusAndDeactivate,
        Target::Edit => PickAction::EditText,
    }
}

/// The role a range is restricted to: the first end's, where both ends have
/// it.
pub fn range_role(first: Option<RoleOfInterest>, second: RoleOfInterest) -> (r: Option<RoleOfInterest>)
    ensures
        r == (if first == Some(second) { Some(second) } else { None }),
{
    match first {
        Some(f) => if f == second {
            Some(second)
        } else {
            None
        },
        None => None,
    }
}

/// What `-` on an empty prefix does.
#[derive(Debug, PartialEq, Eq, Clone, Copy, Structural)]
pub enum GoBack {
    /// Select the parent element and explore it.
    SelectParent,
    /// Stop typing the search in the word picker.
    FinishSearch,
    /// Close the word picker and return to the text's actions.
    CloseWordPicker,
    /// Forget the first end of the range and redraw the word picker.
    ClearSideInPicker,
    /// Forget the first end of the range and refilter the elements.
    ClearSideInHints,
    /// Forget the first end of the range and refilter the recognised texts.
    ClearSideInTexts,
    Nothing,
}

/// Going back a level while filtering.
pub open spec fn go_back_spec(
    mode: FilterMode,
    exploring_children: bool,
    picker_searching: bool,
    multi_on: bool,
    one_side_set: bool,
) -> GoBack {
    match mode {
        FilterMode::Generic => if exploring_children {
            GoBack::SelectParent
        } else if multi_on {
            GoBack::ClearSideInHints
        } else {
            GoBack::Nothing
        },
        FilterMode::WordPicking => if picker_searching {
            GoBack::FinishSearch
        } else if !multi_on || !one_side_set {
            GoBack::CloseWordPicker
        } else {
            GoBack::ClearSideInPicker
        },
        FilterMode::OCR => if multi_on {
            GoBack::ClearSideInTexts
        } else {
            GoBack::Nothing
        },
    }
}

/// What `-` on an empty prefix does in a filtering mode: in the element
/// explorer it climbs to the parent, in the word picker it ends a search or
/// closes the picker, and while a range is picked it forgets the first end.
pub fn go_back_in_filtering(
    mode: FilterMode,
    exploring_children: bool,
    picker_searching: bool,
    multi: &MultiSeletionState,
) -> (r: GoBack)
    ensures
        r == go_back_spec(mode, exploring_children, picker_searching, multi.is_on, multi.one_side_idx is Some),
{
    match mode {
        FilterMode::Generic => if exploring_children {
            GoBack::SelectParent
        } else if multi.is_on {
            GoBack::ClearSideInHints
        } else {
            GoBack::Nothing
        },
        FilterMode::WordPicking => if picker_searching {
            GoBack::FinishSearch
        } else if !multi.is_on || multi.one_side_idx.is_none() {
            GoBack::CloseWordPicker
        } else {
            GoBack::ClearSideInPicker
        },
        FilterMode::OCR => if multi.is_on {
            GoBack::ClearSideInTexts
        } else {
            GoBack::Nothing
        },
    }
}

/// Whether every matched word has the first one's text.
pub open spec fn one_text(matched: Seq<(usize, String)>) -> bool {
    forall|i: int| 0 <= i < matched.len() ==> (#[trigger] matched[i]).1@ == matched[0].1@
}

/// The word the picker settles on: the first match, once no search is being
/// typed, the label is complete or a search alone was typed, and the match is
/// unambiguous: a single word, or while no range is picked, copies of one.
pub open spec fn word_pick_spec(
    matched: Seq<(usize, String)>,
    multi_on: bool,
    searching: bool,
    key_prefix: Seq<char>,
    hint_width: u32,
    text_prefix: Seq<char>,
    label_prefix: Seq<char>,
) -> Option<usize> {
    let unique = matched.len() == 1 || (!multi_on && matched.len() > 0 && one_text(matched));
    if !searching && (prefix_complete(key_prefix, hint_width) || (text_prefix.len() > 0
        && label_prefix.len() == 0)) && unique && matched.len() > 0 {
        Some(matched[0].0)
    } else {
        None
    }
}

/// The word index picked in the word picker, if the pick is settled.
pub fn check_word_picker(
    matched: &Vec<(usize, String)>,
    multi_on: bool,
    searching: bool,
    key_prefix: &str,
    hint_width: u32,
    text_prefix: &str,
    label_prefix: &str,
) -> (r: Option<usize>)
    ensures
        r == word_pick_spec(
            matched@,
            multi_on,
            searching,
            key_prefix@,
            hint_width,
            text_prefix@,
            label_prefix@,
        ),
{
    let mut same = true;
    if matched.len() > 0 {
        let mut i: usize = 0;
        while i < matched.len()
            invariant
                matched@.len() > 0,
                i <= matched@.len(),
                same == (forall|k: int| 0 <= k < i ==> (#[trigger] matched@[k]).1@ == matched@[0].1@),
            decreases matched@.len() - i,
        {
            if matched[i].1 != matched[0].1 {
                same = false;
            }
            i = i + 1;
        }
    }
    let unique = matched.len() == 1 || (!multi_on && matched.len() > 0 && same);
    if !searching && (byte_count(key_prefix) == hint_width as usize || (text_prefix.unicode_len() > 0
        && label_prefix.unicode_len() == 0)) && unique && matched.len() > 0 {
        Some(matched[0].0)
    } else {
        None
    }
}

/// `pairs` whose key begins with `prefix`, in order.
pub open spec fn keep_prefixed(pairs: Seq<(Seq<char>, Seq<char>)>, prefix: Seq<char>) -> Seq<
    (Seq<char>, Seq<char>),
>
    decreases pairs.len(),
{
    if pairs.len() == 0 {
        Seq::empty()
    } else {
        let r = keep_prefixed(pairs.drop_last(), prefix);
        if prefix.is_prefix_of(pairs.last().0) {
            r.push(pairs.last())
        } else {
            r
        }
    }
}

/// The key and description of each built-in item.
pub open spec fn item_pairs(items: Seq<MenuItem>) -> Seq<(Seq<char>, Seq<char>)> {
    items.map_values(|it: MenuItem| (it.key@, it.description@))
}

/// The key and display of each command.
pub open spec fn command_pairs(cmds: Seq<CommandAction>) -> Seq<(Seq<char>, Seq<char>)> {
    cmds.map_values(|c: CommandAction| (c.key@, c.display@))
}

/// The key and display of each workflow that can run for the app and the
/// selection.
pub open spec fn valid_flow_pairs(flows: Seq<WorkFlow>, bundle_id: Seq<char>, selected: Option<Selection>) -> Seq<
    (Seq<char>, Seq<char>),
>
    decreases flows.len(),
{
    if flows.len() == 0 {
        Seq::empty()
    } else {
        let r = valid_flow_pairs(flows.drop_last(), bundle_id, selected);
        let w = flows.last();
        if app_allowed(opt_strings_view(w.valid_app_ids), bundle_id) && role_met(w.starting_role, selected) {
            r.push((w.key@, w.display@))
        } else {
            r
        }
    }
}

/// The editor's key and display, where there is one and the menu offers it.
pub open spec fn editor_pairs(editor: Option<CommandAction>, need_editor: bool) -> Seq<(Seq<char>, Seq<char>)> {
    match editor {
        Some(e) => if need_editor {
            seq![(e.key@, e.display@)]
        } else {
            Seq::empty()
        },
        None => Seq::empty(),
    }
}

/// The entries of a menu under the typed prefix: the built-in items, the
/// editor, the text actions, then the workflows that can run, each kind where
/// the menu offers it.
pub open spec fn menu_entries(
    builtin: Seq<MenuItem>,
    config: GlyphlowConfig,
    need_editor: bool,
    need_action: bool,
    need_workflow: bool,
    bundle_id: Seq<char>,
    selected: Option<Selection>,
    prefix: Seq<char>,
) -> Seq<(Seq<char>, Seq<char>)> {
    let editor = editor_pairs(config.editor, need_editor);
    let actions = if need_action {
        command_pairs(config.text_actions@)
    } else {
        Seq::empty()
    };
    let flows = if need_workflow {
        valid_flow_pairs(config.workflows@, bundle_id, selected)
    } else {
        Seq::empty()
    };
    keep_prefixed(item_pairs(builtin), prefix) + keep_prefixed(editor, prefix) + keep_prefixed(
        actions,
        prefix,
    ) + keep_prefixed(flows, prefix)
}

/// The longest key among `entries`, and at least one.
pub open spec fn widest_key(entries: Seq<(Seq<char>, Seq<char>)>) -> nat
    decreases entries.len(),
{
    if entries.len() == 0 {
        1
    } else {
        let rest = widest_key(entries.drop_last());
        if entries.last().0.len() > rest {
            entries.last().0.len()
        } else {
            rest
        }
    }
}

/// `n` spaces.
pub open spec fn spaces(n: nat) -> Seq<char> {
    Seq::new(n, |i: int| ' ')
}

/// One menu row: the key padded to `width`, the typed part of it blanked
/// with underscores, then what it does.
pub open spec fn menu_line(key: Seq<char>, display: Seq<char>, prefix_len: nat, width: nat) -> Seq<char> {
    seq!['\n'] + spaces((width - key.len()) as nat) + seq!['('] + underscores(prefix_len) + skip_chars(
        key,
        prefix_len,
    ) + seq![')', ' '] + display
}

/// The rows of a menu, one after another.
pub open spec fn menu_rows(entries: Seq<(Seq<char>, Seq<char>)>, prefix_len: nat, width: nat) -> Seq<char>
    decreases entries.len(),
{
    if entries.len() == 0 {
        Seq::empty()
    } else {
        menu_rows(entries.drop_last(), prefix_len, width) + menu_line(
            entries.last().0,
            entries.last().1,
            prefix_len,
            width,
        )
    }
}

/// The menu text: `head` and a row per entry, or a note that the keys typed
/// lead nowhere.
pub open spec fn menu_message(head: Seq<char>, entries: Seq<(Seq<char>, Seq<char>)>, prefix_len: nat) -> Seq<char> {
    if entries.len() == 0 {
        "Wrong key sequence\nPress \u{f006e} to go back"@
    } else {
        head + menu_rows(entries, prefix_len, widest_key(entries))
    }
}

/// One menu row, the key padded to `max_key_len` columns and its first
/// `prefix_len` keys blanked.
pub fn format_menu_line(key: &str, display: &str, prefix_len: usize, max_key_len: usize) -> (r: String)
    requires
        key@.len() <= max_key_len,
    ensures
        r@ == menu_line(key@, display@, prefix_len as nat, max_key_len as nat),
{
    let mut out = String::new();
    out.push('\n');
    push_repeated(&mut out, ' ', max_key_len - key.unicode_len());
    out.push('(');
    push_repeated(&mut out, '_', prefix_len);
    push_skipped(&mut out, key, prefix_len);
    out.push(')');
    out.push(' ');
    out.append(display);
    assert(out@ =~= menu_line(key@, display@, prefix_len as nat, max_key_len as nat));
    out
}

fn push_if_prefixed(
    entries: &mut Vec<(String, String)>,
    key: &String,
    display: &String,
    prefix: &str,
)
    ensures
        pairs_view(final(entries)@) == if prefix@.is_prefix_of(key@) {
            pairs_view(old(entries)@).push((key@, display@))
        } else {
            pairs_view(old(entries)@)
        },
{
    if starts_with(key.as_str(), prefix) {
        let ghost before = pairs_view(entries@);
        entries.push((key.clone(), display.clone()));
        assert(pairs_view(entries@) =~= before.push((key@, display@)));
    }
}

pub open spec fn pairs_view(v: Seq<(String, String)>) -> Seq<(Seq<char>, Seq<char>)> {
    v.map_values(|p: (String, String)| (p.0@, p.1@))
}

pub proof fn lemma_keep_prefixed_push(
    pairs: Seq<(Seq<char>, Seq<char>)>,
    p: (Seq<char>, Seq<char>),
    prefix: Seq<char>,
)
    ensures
        keep_prefixed(pairs.push(p), prefix) == if prefix.is_prefix_of(p.0) {
            keep_prefixed(pairs, prefix).push(p)
        } else {
            keep_prefixed(pairs, prefix)
        },
{
    assert(pairs.push(p).drop_last() =~= pairs);
}

/// The menu text for the typed `key_prefix`: `head`, then a row for each
/// built-in item, the editor, each text action and each workflow that can run
/// for the app and the selection, whose keys begin with the prefix, all keys
/// padded to the longest.
pub fn build_menu_message(
    head: &str,
    builtin_menu_items: &Vec<MenuItem>,
    config: &GlyphlowConfig,
    need_editor: bool,
    need_action: bool,
    need_workflow: bool,
    bundle_id: &str,
    selected: &Option<Selection>,
    key_prefix: &str,
) -> (r: String)
    ensures
        r@ == menu_message(
            head@,
            menu_entries(
                builtin_menu_items@,
                *config,
                need_editor,
                need_action,
                need_workflow,
                bundle_id@,
                *selected,
                key_prefix@,
            ),
            key_prefix@.len(),
        ),
{
    let ghost prefix = key_prefix@;
    let mut entries: Vec<(String, String)> = Vec::new();
    let ghost items = item_pairs(builtin_menu_items@);
    let mut i: usize = 0;
    while i < builtin_menu_items.len()
        invariant
            items == item_pairs(builtin_menu_items@),
            prefix == key_prefix@,
            i <= builtin_menu_items@.len(),
            pairs_view(entries@) == keep_prefixed(items.take(i as int), prefix),
        decreases builtin_menu_items@.len() - i,
    {
        let it = &builtin_menu_items[i];
        assert(items.take(i + 1) =~= items.take(i as int).push((it.key@, it.description@)));
        proof {
            lemma_keep_prefixed_push(items.take(i as int), (it.key@, it.description@), prefix);
        }
        push_if_prefixed(&mut entries, &it.key, &it.description, key_prefix);
        i = i + 1;
    }
    assert(items.take(i as int) =~= items);
    let ghost part1 = pairs_view(entries@);
    let ghost editor = editor_pairs(config.editor, need_editor);
    if need_editor {
        if let Some(e) = &config.editor {
            proof {
                lemma_keep_prefixed_push(Seq::empty(), (e.key@, e.display@), prefix);
                assert(Seq::<(Seq<char>, Seq<char>)>::empty().push((e.key@, e.display@)) =~= editor);
            }
            push_if_prefixed(&mut entries, &e.key, &e.display, key_prefix);
        }
    }
    assert(pairs_view(entries@) =~= part1 + keep_prefixed(editor, prefix));
    let ghost part2 = pairs_view(entries@);
    let ghost actions = command_pairs(config.text_actions@);
    if need_action {
        let mut j: usize = 0;
        while j < config.text_actions.len()
            invariant
                actions == command_pairs(config.text_actions@),
                prefix == key_prefix@,
                j <= config.text_actions@.len(),
                pairs_view(entries@) == part2 + keep_prefixed(actions.take(j as int), prefix),
            decreases config.text_actions@.len() - j,
        {
            let a = &config.text_actions[j];
            assert(actions.take(j + 1) =~= actions.take(j as int).push((a.key@, a.display@)));
            proof {
                lemma_keep_prefixed_push(actions.take(j as int), (a.key@, a.display@), prefix);
            }
            let ghost before = pairs_view(entries@);
            push_if_prefixed(&mut entries, &a.key, &a.display, key_prefix);
            assert(pairs_view(entries@) =~= part2 + keep_prefixed(actions.take(j + 1), prefix));
            j = j + 1;
        }
        assert(actions.take(j as int) =~= actions);
    } else {
        assert(pairs_view(entries@) =~= part2 + keep_prefixed(Seq::empty(), prefix));
    }
    let ghost part3 = pairs_view(entries@);
    if need_workflow {
        let ghost flows = config.workflows@;
        let mut j: usize = 0;
        assert(flows.take(0) =~= Seq::<WorkFlow>::empty());
        while j < config.workflows.len()
            invariant
                flows == config.workflows@,
                prefix == key_prefix@,
                j <= flows.len(),
                pairs_view(entries@) == part3 + keep_prefixed(
                    valid_flow_pairs(flows.take(j as int), bundle_id@, *selected),
                    prefix,
                ),
            decreases flows.len() - j,
        {
            let w = &config.workflows[j];
            assert(flows.take(j + 1).drop_last() =~= flows.take(j as int));
            let ghost vp = valid_flow_pairs(flows.take(j as int), bundle_id@, *selected);
            if is_workflow_valid(w, bundle_id, selected) {
                proof {
                    lemma_keep_prefixed_push(vp, (w.key@, w.display@), prefix);
                }
                push_if_prefixed(&mut entries, &w.key, &w.display, key_prefix);
                assert(pairs_view(entries@) =~= part3 + keep_prefixed(
                    valid_flow_pairs(flows.take(j + 1), bundle_id@, *selected),
                    prefix,
                ));
            }
            j = j + 1;
        }
        assert(flows.take(j as int) =~= flows);
    } else {
        assert(pairs_view(entries@) =~= part3 + keep_prefixed(Seq::empty(), prefix));
    }
    let ghost all = pairs_view(entries@);
    assert(all == menu_entries(
        builtin_menu_items@,
        *config,
        need_editor,
        need_action,
        need_workflow,
        bundle_id@,
        *selected,
        key_prefix@,
    ));
    if entries.len() == 0 {
        return String::from_str("Wrong key sequence\nPress \u{f006e} to go back");
    }
    let mut width: usize = 1;
    let mut k: usize = 0;
    while k < entries.len()
        invariant
            all == pairs_view(entries@),
            k <= entries@.len(),
            width == widest_key(all.take(k as int)),
        decreases entries@.len() - k,
    {
        assert(all.take(k + 1).drop_last() =~= all.take(k as int));
        let n = entries[k].0.as_str().unicode_len();
        if n > width {
            width = n;
        }
        k = k + 1;
    }
    assert(all.take(k as int) =~= all);
    proof {
        lemma_widest_key_bounds(all);
    }
    let prefix_len = key_prefix.unicode_len();
    let mut msg = String::from_str(head);
    let mut k: usize = 0;
    while k < entries.len()
        invariant
            all == pairs_view(entries@),
            k <= entries@.len(),
            width == widest_key(all),
            forall|i: int| 0 <= i < all.len() ==> (#[trigger] all[i]).0.len() <= widest_key(all),
            prefix_len == key_prefix@.len(),
            msg@ == head@ + menu_rows(all.take(k as int), prefix_len as nat, width as nat),
        decreases entries@.len() - k,
    {
        assert(all.take(k + 1).drop_last() =~= all.take(k as int));
        assert(all[k as int] == (entries@[k as int].0@, entries@[k as int].1@));
        let line = format_menu_line(
            entries[k].0.as_str(),
            entries[k].1.as_str(),
            prefix_len,
            width,
        );
        msg.append(line.as_str());
        k = k + 1;
    }
    assert(all.take(k as int) =~= all);
    msg
}

/// Every key fits in the widest.
pub proof fn lemma_widest_key_bounds(entries: Seq<(Seq<char>, Seq<char>)>)
    ensures
        forall|i: int| 0 <= i < entries.len() ==> (#[trigger] entries[i]).0.len() <= widest_key(entries),
        widest_key(entries) >= 1,
    decreases entries.len(),
{
    if entries.len() > 0 {
        let p = entries.drop_last();
        lemma_widest_key_bounds(p);
        assert forall|i: int| 0 <= i < entries.len() implies (#[trigger] entries[i]).0.len()
            <= widest_key(entries) by {
            if i < p.len() {
                assert(entries[i] == p[i]);
            }
        }
    }
}

/// Longest text shown whole in the text action menu, in bytes.
pub const MAX_TEXT_DISPLAY_LEN: usize = 30;

/// The header of the text action menu: the text, cut to its first thirty
/// characters and marked `...` where it takes more than thirty bytes.
pub open spec fn text_menu_header_spec(text: Seq<char>) -> Seq<char> {
    let shown = if saturate(byte_len(text)) > 30 {
        text.take(if text.len() < 30 { text.len() as int } else { 30 }) + "..."@
    } else {
        text
    };
    "Pick an Action for Text:\n\n"@ + shown + "\n"@
}

/// The header of the text action menu for `text`.
pub fn text_menu_header(text: &str) -> (r: String)
    ensures
        r@ == text_menu_header_spec(text@),
{
    let mut out = String::from_str("Pick an Action for Text:\n\n");
    if byte_count(text) > MAX_TEXT_DISPLAY_LEN {
        let n = text.unicode_len();
        let end = if n < MAX_TEXT_DISPLAY_LEN {
            n
        } else {
            MAX_TEXT_DISPLAY_LEN
        };
        out.append(text.substring_char(0, end));
        out.append("...");
    } else {
        out.append(text);
    }
    out.append("\n");
    out
}

/// Which menu is shown for a selected element.
#[derive(Debug, PartialEq, Eq, Clone, Copy, Structural)]
pub enum ElementMenu {
    Image,
    Scrolling,
    Text,
    Dashboard,
}

/// The menu for an element with `role`, found by an activation for
/// `target`: by the role where it has its own menu, else by the target.
pub open spec fn element_menu_spec(role: RoleOfInterest, target: TargetModel) -> ElementMenu {
    match role {
        RoleOfInterest::Image => ElementMenu::Image,
        RoleOfInterest::ScrollBar => ElementMenu::Scrolling,
        RoleOfInterest::TextField | RoleOfInterest::StaticText | RoleOfInterest::PseudoText => ElementMenu::Text,
        _ => match target {
            TargetModel::Text => ElementMenu::Text,
            TargetModel::Scrollable => ElementMenu::Scrolling,
            _ => ElementMenu::Dashboard,
        },
    }
}

/// The mode the key listener is put in while a menu is shown.
pub open spec fn menu_mode_spec(menu: ElementMenu) -> Mode {
    match menu {
        ElementMenu::Image => Mode::ImageActionMenu,
        ElementMenu::Scrolling => Mode::Scrolling,
        ElementMenu::Text => Mode::TextActionMenu,
        ElementMenu::Dashboard => Mode::DashBoard,
    }
}

/// The menu for a selected element, and the mode that goes with it.
pub fn draw_element_menu(role: RoleOfInterest, target: &Target) -> (r: (ElementMenu, Mode))
    ensures
        r.0 == element_menu_spec(role, target@),
        r.1 == menu_mode_spec(r.0),
{
    let menu = match role {
        RoleOfInterest::Image => ElementMenu::Image,
        RoleOfInterest::ScrollBar => ElementMenu::Scrolling,
        RoleOfInterest::TextField | RoleOfInterest::StaticText | RoleOfInterest::PseudoText => ElementMenu::Text,
        _ => match target {
            Target::Text => ElementMenu::Text,
            Target::Scrollable => ElementMenu::Scrolling,
            _ => ElementMenu::Dashboard,
        },
    };
    let mode = match menu {
        ElementMenu::Image => Mode::ImageActionMenu,
        ElementMenu::Scrolling => Mode::Scrolling,
        ElementMenu::Text => Mode::TextActionMenu,
        ElementMenu::Dashboard => Mode::DashBoard,
    };
    (menu, mode)
}

/// What follows a finished search for elements.
#[derive(Debug, PartialEq, Eq, Clone, Copy, Structural)]
pub enum AfterTraversal {
    /// Hints were found: settle them, first hiding covered ones where asked,
    /// and tell the user how to act where asked.
    Settle { resolve_overlaps: bool, show_help: bool },
    /// No image element: recognise text in the whole window.
    RecogniseWindow,
    /// No scroll bar: show the scrolling menu for the selection.
    ScrollMenu,
    /// Nothing relevant: say so and close.
    NothingFound,
    /// Nothing to do.
    Wait,
}

/// What follows a finished search for `target`.
pub open spec fn after_traversal_spec(target: TargetModel, has_hints: bool, has_selection: bool) -> AfterTraversal {
    let child = target is ChildElement;
    if has_hints {
        AfterTraversal::Settle {
            resolve_overlaps: target is Clickable || target is Text,
            show_help: child && !has_selection,
        }
    } else if target is ImageOCR {
        AfterTraversal::RecogniseWindow
    } else if target is Scrollable && has_selection {
        AfterTraversal::ScrollMenu
    } else if !child {
        AfterTraversal::NothingFound
    } else {
        AfterTraversal::Wait
    }
}

/// What follows a finished search for elements.
pub fn handle_traversal_finished(target: &Target, has_hints: bool, has_selection: bool) -> (r: AfterTraversal)
    ensures
        r == after_traversal_spec(target@, has_hints, has_selection),
{
    let child = matches!(target, Target::ChildElement);
    if has_hints {
        AfterTraversal::Settle {
            resolve_overlaps: matches!(target, Target::Clickable | Target::Text),
            show_help: child && !has_selection,
        }
    } else if matches!(target, Target::ImageOCR) {
        AfterTraversal::RecogniseWindow
    } else if matches!(target, Target::Scrollable) && has_selection {
        AfterTraversal::ScrollMenu
    } else if !child {
        AfterTraversal::NothingFound
    } else {
        AfterTraversal::Wait
    }
}

/// How a search for elements runs: for what, within the focused window only
/// or the whole app, and how strictly visibility is checked. Editing searches
/// for editable elements; a workflow's custom target searches the whole app
/// as loosely as possible.
pub fn traversal_plan(target: &Target, configured: VisibilityCheckingLevel) -> (r: (Target, bool, VisibilityCheckingLevel))
    ensures
        r.0@ == (if target@ is Edit { TargetModel::Editable } else { target@ }),
        target@ is Custom ==> !r.1 && r.2 == VisibilityCheckingLevel::Loosest,
        !(target@ is Custom) ==> r.1 && r.2 == configured,
{
    let searched = match target {
        Target::Edit => Target::Editable,
        _ => target.clone(),
    };
    match target {
        Target::Custom(_) => (searched, false, VisibilityCheckingLevel::Loosest),
        _ => (searched, true, configured),
    }
}

/// Whether an activation acts at once when a single element is found.
pub fn quick_follows(target: &Target) -> (r: bool)
    ensures
        r == (target@ is Scrollable || target@ is Editable || target@ is Edit),
{
    matches!(target, Target::Scrollable | Target::Editable | Target::Edit)
}

/// Whether range picking can be switched on: only for texts.
pub fn multiselection_allowed(target: &Target, has_word_picker: bool) -> (r: bool)
    ensures
        r == (target@ is Text || target@ is ImageOCR || has_word_picker),
{
    matches!(target, Target::Text | Target::ImageOCR) || has_word_picker
}

/// The notice after range picking is switched.
pub fn toggle_notice(is_on: bool) -> (r: String)
    ensures
        r@ == "Multi-selection is now "@ + (if is_on { "on"@ } else { "off"@ }) + "."@,
{
    let mut m = String::from_str("Multi-selection is now ");
    m.append(if is_on { "on" } else { "off" });
    m.append(".");
    m
}

/// The colour of a new hint's frame, counting large frames in `color_idx`:
/// only large frames are coloured, by turns.
pub fn frame_color(color_idx: &mut usize, is_large: bool, color_num: usize) -> (r: Option<usize>)
    requires
        is_large ==> *old(color_idx) < usize::MAX,
    ensures
        *final(color_idx) == if is_large { *old(color_idx) + 1 } else { *old(color_idx) as int },
        r == if color_num > 0 && is_large {
            Some(((*old(color_idx) + 1) % (color_num as int)) as usize)
        } else {
            None
        },
{
    if is_large {
        *color_idx = *color_idx + 1;
    }
    if color_num > 0 && is_large {
        Some(*color_idx % color_num)
    } else {
        None
    }
}

/// `s` without the newlines at its end.
pub open spec fn trim_newlines_spec(s: Seq<char>) -> Seq<char>
    decreases s.len(),
{
    if s.len() > 0 && s.last() == '\n' {
        trim_newlines_spec(s.drop_last())
    } else {
        s
    }
}

/// `s` without the newlines at its end, as an editor leaves them.
pub fn trim_end_newlines(s: &str) -> (r: String)
    ensures
        r@ == trim_newlines_spec(s@),
{
    let mut n = s.unicode_len();
    assert(s@.take(n as int) =~= s@);
    while n > 0 && s.get_char(n - 1) == '\n'
        invariant
            n <= s@.len(),
            trim_newlines_spec(s@) == trim_newlines_spec(s@.take(n as int)),
        decreases n,
    {
        assert(s@.take(n as int).drop_last() =~= s@.take(n - 1));
        n = n - 1;
    }
    assert(n > 0 ==> s@.take(n as int).last() == s@[n - 1]);
    String::from_str(s.substring_char(0, n))
}

/// The notice after the configuration file changed: whether everything was
/// applied, or the app must restart for some of it.
pub fn reload_notice(compatible: bool) -> (r: (String, NotifyLevel))
    ensures
        compatible ==> r.0@ == "Configuration reloaded"@ && r.1 == NotifyLevel::Info,
        !compatible ==> r.0@ == "Restart the app to apply full changes"@ && r.1 == NotifyLevel::Warn,
{
    if compatible {
        (String::from_str("Configuration reloaded"), NotifyLevel::Info)
    } else {
        (String::from_str("Restart the app to apply full changes"), NotifyLevel::Warn)
    }
}

/// The column titles of the workflow table.
pub fn workflow_headers() -> (r: Vec<String>)
    ensures
        r@.map_values(|s: String| s@) == seq!["NAME"@, "KEY"@, "ROLE"@, "APPS"@, "STEPS"@],
{
    let mut v: Vec<String> = Vec::new();
    v.push(String::from_str("NAME"));
    v.push(String::from_str("KEY"));
    v.push(String::from_str("ROLE"));
    v.push(String::from_str("APPS"));
    v.push(String::from_str("STEPS"));
    assert(v@.map_values(|s: String| s@) =~= seq!["NAME"@, "KEY"@, "ROLE"@, "APPS"@, "STEPS"@]);
    v
}

/// The apps a workflow is restricted to, or `any`.
pub open spec fn apps_text(ids: Option<Seq<Seq<char>>>) -> Seq<char> {
    match ids {
        None => "any"@,
        Some(v) => join_with(v, ", "@),
    }
}

/// One row of the workflow table: name, key, starting role, apps, and the
/// number of steps.
pub fn workflow_row(wf: &WorkFlow) -> (r: Vec<String>)
    ensures
        r@.map_values(|s: String| s@) == seq![
            wf.display@,
            wf.key@,
            role_name(wf.starting_role),
            apps_text(opt_strings_view(wf.valid_app_ids)),
            crate::css::decimal(wf.actions@.len()),
        ],
{
    let apps = match &wf.valid_app_ids {
        None => String::from_str("any"),
        Some(ids) => {
            let ghost v = ids@.map_values(|s: String| s@);
            let mut out = String::new();
            let mut i: usize = 0;
            while i < ids.len()
                invariant
                    v == ids@.map_values(|s: String| s@),
                    i <= ids@.len(),
                    out@ == join_with(v.take(i as int), ", "@),
                decreases ids@.len() - i,
            {
                assert(v.take(i + 1).drop_last() =~= v.take(i as int));
                if i > 0 {
                    out.append(", ");
                } else {
                    assert(v.take(1) =~= seq![v[0]]);
                }
                out.append(ids[i].as_str());
                i = i + 1;
            }
            assert(v.take(i as int) =~= v);
            out
        },
    };
    let mut steps = String::new();
    crate::css::push_decimal(&mut steps, wf.actions.len() as u64);
    let mut r: Vec<String> = Vec::new();
    r.push(wf.display.clone());
    r.push(wf.key.clone());
    r.push(role_label(wf.starting_role));
    r.push(apps);
    r.push(steps);
    assert(r@.map_values(|s: String| s@) =~= seq![
        wf.display@,
        wf.key@,
        role_name(wf.starting_role),
        apps_text(opt_strings_view(wf.valid_app_ids)),
        crate::css::decimal(wf.actions@.len()),
    ]);
    r
}

/// Where a text action's command takes the selected text.
pub const TEXT_PLACEHOLDER: &'static str = "{glyphlow_text}";

/// Where the editor's command takes the path of the file being edited.
pub const TEMP_FILE_PLACEHOLDER: &'static str = "{glyphlow_temp_file}";

/// A configured command's arguments with `placeholder` replaced by `value` in
/// each.
pub fn command_args(args: &Vec<String>, placeholder: &str, value: &str) -> (r: Vec<String>)
    requires
        placeholder@.len() > 0,
    ensures
        r@.len() == args@.len(),
        forall|i: int| 0 <= i < args@.len() ==> #[trigger] r@[i]@ == replace_spec(args@[i]@, placeholder@, value@),
{
    let mut r: Vec<String> = Vec::new();
    let mut i: usize = 0;
    while i < args.len()
        invariant
            placeholder@.len() > 0,
            i <= args@.len(),
            r@.len() == i,
            forall|k: int| 0 <= k < i ==> #[trigger] r@[k]@ == replace_spec(args@[k]@, placeholder@, value@),
        decreases args@.len() - i,
    {
        r.push(replace_all(args[i].as_str(), placeholder, value));
        i = i + 1;
    }
    r
}

/// The message when a text action's command cannot be started.
pub fn spawn_failure_message(action: &CommandAction) -> (r: String)
    ensures
        r@ == "Failed to spawn command: "@ + action.command@ + " "@ + join_with(
            action.args@.map_values(|s: String| s@),
            " "@,
        ),
{
    let ghost v = action.args@.map_values(|s: String| s@);
    let mut out = String::from_str("Failed to spawn command: ");
    out.append(action.command.as_str());
    out.append(" ");
    let ghost head = out@;
    let mut i: usize = 0;
    while i < action.args.len()
        invariant
            v == action.args@.map_values(|s: String| s@),
            i <= action.args@.len(),
            out@ == head + join_with(v.take(i as int), " "@),
        decreases action.args@.len() - i,
    {
        assert(v.take(i + 1).drop_last() =~= v.take(i as int));
        if i > 0 {
            out.append(" ");
        } else {
            assert(v.take(1) =~= seq![v[0]]);
        }
        out.append(action.args[i].as_str());
        i = i + 1;
    }
    assert(v.take(i as int) =~= v);
    out
}

/// What `String::from_utf8_lossy` returns for bytes: the text they encode,
/// with each invalid sequence replaced by U+FFFD.
pub uninterp spec fn lossy_text(bytes: Seq<u8>) -> Seq<char>;

/// Calls `String::from_utf8_lossy`. Its result is named by `lossy_text`; bytes
/// that are valid UTF-8 come back as the text they encode.
#[verifier::external_body]
fn decode_lossy(bytes: &[u8]) -> (r: String)
    ensures
        r@ == lossy_text(bytes@),
        vstd::utf8::valid_utf8(bytes@) ==> r@ == vstd::utf8::decode_utf8(bytes@),
{
    String::from_utf8_lossy(bytes).into_owned()
}

/// What a text action's command left behind.
#[derive(Debug, PartialEq, Eq)]
pub enum ExternalOutcome {
    /// Its output, which replaces the selected text.
    NewText(String),
    /// It wrote only errors: this message is shown.
    Failure(String),
    /// It wrote nothing.
    Done,
}

/// The outcome of a text action's command from what it wrote: its output
/// without trailing newlines where there is any, else its errors.
pub fn take_external_action(stdout: &Vec<u8>, stderr: &Vec<u8>) -> (r: ExternalOutcome)
    ensures
        stdout@.len() > 0 ==> (r matches ExternalOutcome::NewText(t) && t@ == trim_newlines_spec(
            lossy_text(stdout@),
        )),
        stdout@.len() == 0 && stderr@.len() > 0 ==> (r matches ExternalOutcome::Failure(m) && m@
            == "External stderr: "@ + lossy_text(stderr@)),
        stdout@.len() == 0 && stderr@.len() == 0 ==> r == ExternalOutcome::Done,
{
    if stdout.len() > 0 {
        let text = decode_lossy(stdout.as_slice());
        ExternalOutcome::NewText(trim_end_newlines(text.as_str()))
    } else if stderr.len() > 0 {
        let text = decode_lossy(stderr.as_slice());
        let mut m = String::from_str("External stderr: ");
        m.append(text.as_str());
        ExternalOutcome::Failure(m)
    } else {
        ExternalOutcome::Done
    }
}

/// What the engine does on a signal.
#[derive(Debug)]
pub enum SignalPlan {
    /// Search for `target`; act at once on a single result where asked.
    Activate { target: Target, quick_follow: bool },
    Deactivate,
    MenuRefresh(String),
    /// Clear the menus and run the workflow at this index.
    RunWorkflow(usize),
    RunWorkflowByName(String),
    Scroll(ScrollAction),
    Text(TextAction),
    ToggleMultiSelection,
    /// Tell the user, as a warning.
    Warn(String),
    Filter(char, FilterMode),
    ScreenShot,
    /// Recognise text in the selection's frame.
    RecogniseSelection,
    /// Start filtering and search for images to recognise text in.
    RecogniseImages,
    FileUpdate(String),
    ReadClipboard,
    /// A notice timed out while closing: close.
    DeactivateAfterNotice,
    ClearNotification,
}

/// The plan for a signal, given the search target, whether the word picker
/// is up, whether something is selected and the key listener's mode.
pub fn handle_signal(
    signal: &AppSignal,
    target: &Target,
    has_word_picker: bool,
    has_selection: bool,
    mode: Mode,
) -> (r: SignalPlan)
    ensures
        match *signal {
            AppSignal::Activate(t) => r matches SignalPlan::Activate { target: t2, quick_follow } && t2@
                == t@ && quick_follow == (t@ is Scrollable || t@ is Editable || t@ is Edit),
            AppSignal::DeActivate => r is Deactivate,
            AppSignal::MenuRefresh(p) => r matches SignalPlan::MenuRefresh(p2) && p2@ == p@,
            AppSignal::RunWorkFlow(i) => r matches SignalPlan::RunWorkflow(j) && i == j,
            AppSignal::RunWorkFlowByName(n) => r matches SignalPlan::RunWorkflowByName(n2) && n2@ == n@,
            AppSignal::ScrollAction(a) => r matches SignalPlan::Scroll(b) && a == b,
            AppSignal::TextAction(a) => r matches SignalPlan::Text(b) && a == b,
            AppSignal::ToggleMultiSelection => if target@ is Text || target@ is ImageOCR || has_word_picker {
                r is ToggleMultiSelection
            } else {
                r matches SignalPlan::Warn(m) && m@ == "Multi selection only works for text."@
            },
            AppSignal::Filter(c, m) => r matches SignalPlan::Filter(c2, m2) && c == c2 && m == m2,
            AppSignal::ScreenShot => r is ScreenShot,
            AppSignal::FrameOCR => if has_selection {
                r is RecogniseSelection
            } else {
                r is RecogniseImages
            },
            AppSignal::FileUpdate(p) => r matches SignalPlan::FileUpdate(p2) && p2@ == p@,
            AppSignal::ReadClipboard => r is ReadClipboard,
            AppSignal::ClearNotification => if mode == Mode::WaitAndDeactivate {
                r is DeactivateAfterNotice
            } else {
                r is ClearNotification
            },
        },
{
    match signal {
        AppSignal::Activate(t) => SignalPlan::Activate { target: t.clone(), quick_follow: quick_follows(t) },
        AppSignal::DeActivate => SignalPlan::Deactivate,
        AppSignal::MenuRefresh(p) => SignalPlan::MenuRefresh(p.clone()),
        AppSignal::RunWorkFlow(i) => SignalPlan::RunWorkflow(*i),
        AppSignal::RunWorkFlowByName(n) => SignalPlan::RunWorkflowByName(n.clone()),
        AppSignal::ScrollAction(a) => SignalPlan::Scroll(*a),
        AppSignal::TextAction(a) => SignalPlan::Text(*a),
        AppSignal::ToggleMultiSelection => if multiselection_allowed(target, has_word_picker) {
            SignalPlan::ToggleMultiSelection
        } else {
            SignalPlan::Warn(String::from_str("Multi selection only works for text."))
        },
        AppSignal::Filter(c, m) => SignalPlan::Filter(*c, *m),
        AppSignal::ScreenShot => SignalPlan::ScreenShot,
        AppSignal::FrameOCR => if has_selection {
            SignalPlan::RecogniseSelection
        } else {
            SignalPlan::RecogniseImages
        },
        AppSignal::FileUpdate(p) => SignalPlan::FileUpdate(p.clone()),
        AppSignal::ReadClipboard => SignalPlan::ReadClipboard,
        AppSignal::ClearNotification => if mode == Mode::WaitAndDeactivate {
            SignalPlan::DeactivateAfterNotice
        } else {
            SignalPlan::ClearNotification
        },
    }
}

/// What the engine keeps between key presses while hints are up: the typed
/// label prefix and search, the texts searched in, range picking, the label
/// width, and the workflow steps still to run.
pub struct FilterState {
    pub hint_prefix: String,
    pub search_prefix: String,
    pub search_targets: Vec<String>,
    pub search_debounce_counter: usize,
    pub is_searching: bool,
    pub multi_selection: MultiSeletionState,
    pub hint_width: u32,
    pub pending_workflow_actions: Vec<WorkFlowAction>,
}

/// Whether nothing is typed, searched or picked.
pub open spec fn cleared(s: FilterState) -> bool {
    &&& s.hint_prefix@.len() == 0
    &&& s.search_prefix@.len() == 0
    &&& s.search_targets@.len() == 0
    &&& s.search_debounce_counter == 0
    &&& !s.is_searching
    &&& !s.multi_selection.is_on
    &&& s.multi_selection.one_side_idx is None
    &&& s.multi_selection.role is None
}

impl FilterState {
    pub fn new() -> (r: Self)
        ensures
            cleared(r),
            r.hint_width == 0,
            r.pending_workflow_actions@.len() == 0,
    {
        FilterState {
            hint_prefix: String::new(),
            search_prefix: String::new(),
            search_targets: Vec::new(),
            search_debounce_counter: 0,
            is_searching: false,
            multi_selection: MultiSeletionState::default(),
            hint_width: 0,
            pending_workflow_actions: Vec::new(),
        }
    }

    /// Forgets what was typed, searched and picked; the label width and the
    /// pending steps stay.
    pub fn clear_cache(&mut self)
        ensures
            cleared(*final(self)),
            final(self).hint_width == old(self).hint_width,
            final(self).pending_workflow_actions == old(self).pending_workflow_actions,
    {
        self.hint_prefix = String::new();
        self.search_prefix = String::new();
        self.search_targets = Vec::new();
        self.search_debounce_counter = 0;
        self.is_searching = false;
        self.multi_selection.reset();
    }

    /// Closes everything: forgets what was typed and picked, the label width
    /// and the pending steps; the key listener goes back to idle.
    pub fn deactivate(&mut self) -> (mode: Mode)
        ensures
            cleared(*final(self)),
            final(self).hint_width == 0,
            final(self).pending_workflow_actions@.len() == 0,
            mode == Mode::Idle,
    {
        self.clear_cache();
        self.hint_width = 0;
        self.pending_workflow_actions = Vec::new();
        Mode::Idle
    }
}

/// Running the workflow at a menu key: its steps where it can run for the
/// app and the selection, else the note that the keys typed lead nowhere.
pub fn execute_workflow(wf: &WorkFlow, bundle_id: &str, selected: &Option<Selection>) -> (r: Result<Vec<WorkFlowAction>, String>)
    ensures
        (app_allowed(opt_strings_view(wf.valid_app_ids), bundle_id@) && role_met(wf.starting_role, *selected))
            ==> (r matches Ok(steps) && crate::config::actions_view(steps@) == crate::config::actions_view(wf.actions@)),
        !(app_allowed(opt_strings_view(wf.valid_app_ids), bundle_id@) && role_met(wf.starting_role, *selected))
            ==> (r matches Err(m) && m@ == "Wrong key sequence\nPress \u{f006e} to go back"@),
{
    if is_workflow_valid(wf, bundle_id, selected) {
        Ok(crate::config::clone_actions(&wf.actions))
    } else {
        Err(String::from_str("Wrong key sequence\nPress \u{f006e} to go back"))
    }
}

/// The word picker settles only on the first match, only once no search is
/// being typed and either the label is complete or only a search was typed,
/// and only when the match is a single word or, while no range is picked,
/// copies of one text.
pub proof fn law_word_pick(
    matched: Seq<(usize, String)>,
    multi_on: bool,
    searching: bool,
    key_prefix: Seq<char>,
    hint_width: u32,
    text_prefix: Seq<char>,
    label_prefix: Seq<char>,
)
    ensures
        word_pick_spec(matched, multi_on, searching, key_prefix, hint_width, text_prefix, label_prefix)
            matches Some(i) ==> {
            &&& matched.len() > 0
            &&& i == matched[0].0
            &&& !searching
            &&& prefix_complete(key_prefix, hint_width) || (text_prefix.len() > 0 && label_prefix.len() == 0)
            &&& matched.len() == 1 || (!multi_on && forall|k: int| 0 <= k < matched.len() ==> (#[trigger] matched[k]).1@ == matched[0].1@)
        },
        !searching && prefix_complete(key_prefix, hint_width) && matched.len() == 1 ==> word_pick_spec(
            matched,
            multi_on,
            searching,
            key_prefix,
            hint_width,
            text_prefix,
            label_prefix,
        ) == Some(matched[0].0),
        matched.len() >= 2 && matched[0].1@ != matched[1].1@ ==> word_pick_spec(
            matched,
            multi_on,
            searching,
            key_prefix,
            hint_width,
            text_prefix,
            label_prefix,
        ) is None,
{
    if matched.len() >= 2 && matched[0].1@ != matched[1].1@ {
        assert(!one_text(matched));
    }
}

/// The entries kept for a prefix are exactly, in order, those whose key
/// begins with it.
pub proof fn law_keep_prefixed(pairs: Seq<(Seq<char>, Seq<char>)>, prefix: Seq<char>)
    ensures
        forall|k: int|
            0 <= k < keep_prefixed(pairs, prefix).len() ==> prefix.is_prefix_of(
                (#[trigger] keep_prefixed(pairs, prefix)[k]).0,
            ) && pairs.contains(keep_prefixed(pairs, prefix)[k]),
        forall|i: int|
            0 <= i < pairs.len() && prefix.is_prefix_of(pairs[i].0) ==> keep_prefixed(pairs, prefix).contains(
                #[trigger] pairs[i],
            ),
        keep_prefixed(pairs, prefix).len() <= pairs.len(),
    decreases pairs.len(),
{
    if pairs.len() > 0 {
        let p = pairs.drop_last();
        law_keep_prefixed(p, prefix);
        let before = keep_prefixed(p, prefix);
        let now = keep_prefixed(pairs, prefix);
        assert forall|k: int| 0 <= k < now.len() implies prefix.is_prefix_of((#[trigger] now[k]).0)
            && pairs.contains(now[k]) by {
            if k < before.len() {
                assert(now[k] == before[k]);
                let j = choose|j: int| 0 <= j < p.len() && p[j] == before[k];
                assert(pairs[j] == p[j]);
            } else {
                assert(now[k] == pairs.last());
                assert(pairs[pairs.len() - 1] == pairs.last());
            }
        }
        assert forall|i: int| 0 <= i < pairs.len() && prefix.is_prefix_of(pairs[i].0) implies now.contains(
            #[trigger] pairs[i],
        ) by {
            if i < p.len() {
                assert(pairs[i] == p[i]);
                let k = choose|k: int| 0 <= k < before.len() && before[k] == p[i];
                assert(now[k] == before[k]);
            } else {
                assert(now[now.len() - 1] == pairs.last());
            }
        }
    }
}

/// Typing while filtering: `-` takes the last key back (or, on an empty
/// prefix, asks to go back and changes nothing); any other key is added while
/// the prefix is shorter than a label or a search is typed, and is dropped
/// otherwise. Only `-` on an empty prefix goes back.
pub proof fn law_prefix_edit(prefix: Seq<char>, c: char, hint_width: u32, searching: bool)
    ensures
        prefix_after(prefix, c, hint_width, searching).1 <==> (c == '-' && prefix.len() == 0),
        c == '-' && prefix.len() > 0 ==> prefix_after(prefix, c, hint_width, searching).0
            == prefix.take(prefix.len() - 1),
        c != '-' && (searching || byte_len(prefix) < hint_width) ==> prefix_after(
            prefix,
            c,
            hint_width,
            searching,
        ).0 == prefix + seq![c],
        c != '-' && !searching && byte_len(prefix) >= hint_width ==> prefix_after(
            prefix,
            c,
            hint_width,
            searching,
        ).0 == prefix,
{
    assert(prefix.push(c) =~= prefix + seq![c]);
    assert(prefix.len() > 0 ==> prefix.drop_last() =~= prefix.take(prefix.len() - 1));
}

/// An action that needs a selection reports that none is there when nothing
/// is selected, and one that needs an accessibility element reports that the
/// selection has none; actions that need neither never report either.
pub proof fn law_workflow_step_needs(act: WorkFlowAction, selected: Option<Selection>)
    ensures
        ({
            let needs_nothing = act is GlyphlowMenu || act is Sleep || act is SearchFor || act is Move
                || act is KeyCombo;
            let needs_selection_only = act is Hover || act is Click || act is RightClick
                || act is MiddleClick;
            &&& needs_nothing ==> !(step_for(act, selected) is NoSelection) && !(step_for(
                act,
                selected,
            ) is NoElement)
            &&& !needs_nothing && selected is None ==> step_for(act, selected) is NoSelection
            &&& needs_selection_only && selected is Some ==> !(step_for(act, selected) is NoElement)
            &&& (!needs_nothing && !needs_selection_only && selected is Some) ==> (step_for(
                act,
                selected,
            ) is NoElement <==> !selected->0.has_element)
        }),
{
}

/// A workflow with no app restriction applies to every app, one restricted
/// to apps applies exactly to those; `Any` needs no selection, `Some` any
/// selection, other roles a selection backed by an element; and the reason a
/// workflow cannot run is given exactly when it cannot.
pub proof fn law_workflow_validity(wf: WorkFlow, bundle_id: Seq<char>, selected: Option<Selection>)
    ensures
        opt_strings_view(wf.valid_app_ids) is None ==> app_allowed(opt_strings_view(wf.valid_app_ids), bundle_id),
        opt_strings_view(wf.valid_app_ids) matches Some(ids) ==> (app_allowed(opt_strings_view(wf.valid_app_ids), bundle_id)
            <==> ids.contains(bundle_id)),
        wf.starting_role == RoleOfInterest::Any ==> role_met(wf.starting_role, selected),
        selected is None && wf.starting_role != RoleOfInterest::Any ==> !role_met(wf.starting_role, selected),
        selected matches Some(s) && !s.has_element && wf.starting_role != RoleOfInterest::Any
            && wf.starting_role != RoleOfInterest::AnySelection ==> !role_met(wf.starting_role, selected),
        selected matches Some(s) && s.has_element && s.role == wf.starting_role ==> role_met(wf.starting_role, selected),
        invalid_reason(wf, bundle_id, selected) is None <==> (app_allowed(opt_strings_view(wf.valid_app_ids), bundle_id)
            && role_met(wf.starting_role, selected)),
{
    if opt_strings_view(wf.valid_app_ids) is Some {
        let ids = opt_strings_view(wf.valid_app_ids)->0;
        if ids.contains(bundle_id) {
            let i = choose|i: int| 0 <= i < ids.len() && ids[i] == bundle_id;
            assert(ids[i] == bundle_id);
        }
    }
}

} // verus!
