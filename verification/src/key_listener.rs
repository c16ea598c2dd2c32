//! The key listener: which key press does what in which mode.
//!
//! Every key event is decided here from the current mode, the key and the
//! keys held down; the caller applies the outcome (sends the signal) and hands
//! back the next event.

use vstd::prelude::*;
use crate::ax_element::{Target, TargetModel};
use crate::config::{GlyphlowConfig, KeyBinding, clone_keys};
use crate::keys::{Key, key_char, key_right_alternative};

verus! {

#[derive(Debug, PartialEq, Eq, Clone, Copy, Structural)]
pub enum TextAction {
    Copy,
    Dictionary,
    Split,
    Editor,
    /// Index of the action in the configuration.
    UserDefined(usize),
}

#[derive(Debug, PartialEq, Eq, Clone, Copy, Structural)]
pub enum ScrollAction {
    UpLeft,
    DownRight,
    IncreaseDistance,
    DecreaseDistance,
    Top,
    Bottom,
}

#[derive(Debug, PartialEq, Eq, Clone, Copy, Structural)]
pub enum FilterMode {
    WordPicking,
    Generic,
    OCR,
}

/// What the key listener asks the engine to do.
#[derive(Debug, PartialEq)]
pub enum AppSignal {
    Activate(Target),
    DeActivate,
    Filter(char, FilterMode),
    MenuRefresh(String),
    FileUpdate(String),
    ClearNotification,
    ToggleMultiSelection,
    TextAction(TextAction),
    ScrollAction(ScrollAction),
    RunWorkFlow(usize),
    /// Run the workflow whose display name holds this text; sent by clients.
    RunWorkFlowByName(String),
    ReadClipboard,
    ScreenShot,
    FrameOCR,
}

pub enum AppSignalModel {
    Activate(TargetModel),
    DeActivate,
    Filter(char, FilterMode),
    MenuRefresh(Seq<char>),
    FileUpdate(Seq<char>),
    ClearNotification,
    ToggleMultiSelection,
    TextAction(TextAction),
    ScrollAction(ScrollAction),
    RunWorkFlow(usize),
    RunWorkFlowByName(Seq<char>),
    ReadClipboard,
    ScreenShot,
    FrameOCR,
}

impl View for AppSignal {
    type V = AppSignalModel;

    open spec fn view(&self) -> AppSignalModel {
        match self {
            AppSignal::Activate(t) => AppSignalModel::Activate(t@),
            AppSignal::DeActivate => AppSignalModel::DeActivate,
            AppSignal::Filter(c, m) => AppSignalModel::Filter(*c, *m),
            AppSignal::MenuRefresh(s) => AppSignalModel::MenuRefresh(s@),
            AppSignal::FileUpdate(s) => AppSignalModel::FileUpdate(s@),
            AppSignal::ClearNotification => AppSignalModel::ClearNotification,
            AppSignal::ToggleMultiSelection => AppSignalModel::ToggleMultiSelection,
            AppSignal::TextAction(a) => AppSignalModel::TextAction(*a),
            AppSignal::ScrollAction(a) => AppSignalModel::ScrollAction(*a),
            AppSignal::RunWorkFlow(i) => AppSignalModel::RunWorkFlow(*i),
            AppSignal::RunWorkFlowByName(s) => AppSignalModel::RunWorkFlowByName(s@),
            AppSignal::ReadClipboard => AppSignalModel::ReadClipboard,
            AppSignal::ScreenShot => AppSignalModel::ScreenShot,
            AppSignal::FrameOCR => AppSignalModel::FrameOCR,
        }
    }
}

impl Clone for AppSignal {
    fn clone(&self) -> (r: Self)
        ensures
            r@ == self@,
    {
        match self {
            AppSignal::Activate(t) => AppSignal::Activate(t.clone()),
            AppSignal::DeActivate => AppSignal::DeActivate,
            AppSignal::Filter(c, m) => AppSignal::Filter(*c, *m),
            AppSignal::MenuRefresh(s) => AppSignal::MenuRefresh(s.clone()),
            AppSignal::FileUpdate(s) => AppSignal::FileUpdate(s.clone()),
            AppSignal::ClearNotification => AppSignal::ClearNotification,
            AppSignal::ToggleMultiSelection => AppSignal::ToggleMultiSelection,
            AppSignal::TextAction(a) => AppSignal::TextAction(*a),
            AppSignal::ScrollAction(a) => AppSignal::ScrollAction(*a),
            AppSignal::RunWorkFlow(i) => AppSignal::RunWorkFlow(*i),
            AppSignal::RunWorkFlowByName(s) => AppSignal::RunWorkFlowByName(s.clone()),
            AppSignal::ReadClipboard => AppSignal::ReadClipboard,
            AppSignal::ScreenShot => AppSignal::ScreenShot,
            AppSignal::FrameOCR => AppSignal::FrameOCR,
        }
    }
}

/// The state the key listener is in.
#[derive(Debug, PartialEq, Eq, Clone, Copy, Structural)]
pub enum Mode {
    DashBoard,
    Filtering,
    Idle,
    Scrolling,
    TextActionMenu,
    ImageActionMenu,
    Editing,
    WordPicking,
    OCRResultFiltering,
    WaitAndDeactivate,
}

/// One line of a menu: what it does, the keys that pick it, and the signal.
#[derive(Debug, PartialEq)]
pub struct MenuItem {
    pub description: String,
    pub key: String,
    pub action: AppSignal,
}

pub open spec fn item_model(item: MenuItem) -> (Seq<char>, Seq<char>, AppSignalModel) {
    (item.description@, item.key@, item.action@)
}

pub open spec fn items_view(items: Seq<MenuItem>) -> Seq<(Seq<char>, Seq<char>, AppSignalModel)> {
    items.map_values(|it: MenuItem| item_model(it))
}

/// `n` underscores.
pub open spec fn underscores(n: nat) -> Seq<char> {
    Seq::new(n, |i: int| '_')
}

/// `s` without its first `n` characters, or empty when it is shorter.
pub open spec fn skip_chars(s: Seq<char>, n: nat) -> Seq<char> {
    if n <= s.len() {
        s.subrange(n as int, s.len() as int)
    } else {
        Seq::empty()
    }
}

pub fn push_repeated(out: &mut String, c: char, n: usize)
    ensures
        final(out)@ == old(out)@ + Seq::new(n as nat, |i: int| c),
{
    let ghost start = out@;
    let mut i: usize = 0;
    while i < n
        invariant
            i <= n,
            out@ == start + Seq::new(i as nat, |k: int| c),
        decreases n - i,
    {
        out.push(c);
        i = i + 1;
        assert(out@ =~= start + Seq::new(i as nat, |k: int| c));
    }
}

/// Appends the characters of `s` from the `n`-th on.
pub fn push_skipped(out: &mut String, s: &str, n: usize)
    ensures
        final(out)@ == old(out)@ + skip_chars(s@, n as nat),
{
    let v = crate::std_text::chars_of(s);
    let ghost start = out@;
    if n > v.len() {
        return;
    }
    let mut i: usize = n;
    while i < v.len()
        invariant
            v@ == s@,
            n <= i <= v@.len(),
            out@ == start + s@.subrange(n as int, i as int),
        decreases v@.len() - i,
    {
        out.push(v[i]);
        i = i + 1;
        assert(out@ =~= start + s@.subrange(n as int, i as int));
    }
}

impl MenuItem {
    pub fn new(description: &str, key: &str, action: AppSignal) -> (r: MenuItem)
        ensures
            r.description@ == description@,
            r.key@ == key@,
            r.action == action,
    {
        MenuItem { description: String::from_str(description), key: String::from_str(key), action }
    }

    /// `(key) description`, with the first `prefix_len` keys already typed
    /// shown as underscores.
    pub fn pretty_print(&self, prefix_len: usize) -> (r: String)
        ensures
            r@ == seq!['('] + underscores(prefix_len as nat) + skip_chars(self.key@, prefix_len as nat)
                + seq![')', ' '] + self.description@,
    {
        let mut out = String::new();
        out.push('(');
        push_repeated(&mut out, '_', prefix_len);
        push_skipped(&mut out, self.key.as_str(), prefix_len);
        out.push(')');
        out.push(' ');
        out.append(self.description.as_str());
        assert(underscores(prefix_len as nat) =~= Seq::new(prefix_len as nat, |i: int| '_'));
        out
    }

    /// `(key) description`.
    pub fn to_string(&self) -> (r: String)
        ensures
            r@ == seq!['('] + self.key@ + seq![')', ' '] + self.description@,
    {
        let mut out = String::new();
        out.push('(');
        out.append(self.key.as_str());
        out.push(')');
        out.push(' ');
        out.append(self.description.as_str());
        out
    }
}

pub open spec fn activate(t: TargetModel) -> AppSignalModel {
    AppSignalModel::Activate(t)
}

/// The dashboard: what to label, and actions on the whole window.
pub open spec fn dash_board_spec() -> Seq<(Seq<char>, Seq<char>, AppSignalModel)> {
    seq![
        ("\u{f09a8} Text"@, "T"@, activate(TargetModel::Text)),
        ("\u{f0cfd} Press"@, "P"@, activate(TargetModel::Clickable)),
        ("\u{f1552} ScrollBar"@, "S"@, activate(TargetModel::Scrollable)),
        ("\u{f0284} Input"@, "I"@, activate(TargetModel::Editable)),
        ("\u{f03e} Image"@, "M"@, activate(TargetModel::Image)),
        ("\u{f0645} Element Explorer"@, "E"@, activate(TargetModel::ChildElement)),
        ("\u{f019f} ScreenShot"@, "R"@, AppSignalModel::ScreenShot),
        ("\u{f113a} Image OCR"@, "O"@, AppSignalModel::FrameOCR),
        ("\u{f0ea} Read Clipboard"@, "C"@, AppSignalModel::ReadClipboard),
    ]
}

pub open spec fn scroll(a: ScrollAction) -> AppSignalModel {
    AppSignalModel::ScrollAction(a)
}

pub open spec fn scrollbar_spec() -> Seq<(Seq<char>, Seq<char>, AppSignalModel)> {
    seq![
        ("> Down/Right"@, "J"@, scroll(ScrollAction::DownRight)),
        ("< Up/Left"@, "K"@, scroll(ScrollAction::UpLeft)),
        ("+ Distance Increase"@, "I"@, scroll(ScrollAction::IncreaseDistance)),
        ("- Distance Decrease"@, "D"@, scroll(ScrollAction::DecreaseDistance)),
        ("\u{f08a6} Top"@, "GG"@, scroll(ScrollAction::Top)),
        ("\u{f08a2} Bottom"@, "\u{f0636}G"@, scroll(ScrollAction::Bottom)),
    ]
}

pub open spec fn text_action_spec() -> Seq<(Seq<char>, Seq<char>, AppSignalModel)> {
    seq![
        ("\u{2bba} Copy"@, "C"@, AppSignalModel::TextAction(TextAction::Copy)),
        ("\u{25eb} Dictionary"@, "D"@, AppSignalModel::TextAction(TextAction::Dictionary)),
        ("\u{f00fb} Split"@, "S"@, AppSignalModel::TextAction(TextAction::Split)),
    ]
}

pub open spec fn image_action_spec() -> Seq<(Seq<char>, Seq<char>, AppSignalModel)> {
    seq![("\u{f113a} Image OCR"@, "O"@, AppSignalModel::FrameOCR)]
}

fn push_item(items: &mut Vec<MenuItem>, description: &str, key: &str, action: AppSignal)
    ensures
        items_view(final(items)@) == items_view(old(items)@).push(
            (description@, key@, action@),
        ),
{
    let ghost before = items_view(items@);
    let ghost a = action@;
    items.push(MenuItem::new(description, key, action));
    assert(items_view(items@) =~= before.push((description@, key@, a)));
}

pub fn dash_board_menu_items() -> (r: Vec<MenuItem>)
    ensures
        items_view(r@) == dash_board_spec(),
{
    let mut v: Vec<MenuItem> = Vec::new();
    assert(items_view(v@) =~= Seq::empty());
    push_item(&mut v, "\u{f09a8} Text", "T", AppSignal::Activate(Target::Text));
    push_item(&mut v, "\u{f0cfd} Press", "P", AppSignal::Activate(Target::Clickable));
    push_item(&mut v, "\u{f1552} ScrollBar", "S", AppSignal::Activate(Target::Scrollable));
    push_item(&mut v, "\u{f0284} Input", "I", AppSignal::Activate(Target::Editable));
    push_item(&mut v, "\u{f03e} Image", "M", AppSignal::Activate(Target::Image));
    push_item(
        &mut v,
        "\u{f0645} Element Explorer",
        "E",
        AppSignal::Activate(Target::ChildElement),
    );
    push_item(&mut v, "\u{f019f} ScreenShot", "R", AppSignal::ScreenShot);
    push_item(&mut v, "\u{f113a} Image OCR", "O", AppSignal::FrameOCR);
    push_item(&mut v, "\u{f0ea} Read Clipboard", "C", AppSignal::ReadClipboard);
    assert(items_view(v@) =~= dash_board_spec());
    v
}

pub fn scrollbar_menu_items() -> (r: Vec<MenuItem>)
    ensures
        items_view(r@) == scrollbar_spec(),
{
    let mut v: Vec<MenuItem> = Vec::new();
    assert(items_view(v@) =~= Seq::empty());
    push_item(&mut v, "> Down/Right", "J", AppSignal::ScrollAction(ScrollAction::DownRight));
    push_item(&mut v, "< Up/Left", "K", AppSignal::ScrollAction(ScrollAction::UpLeft));
    push_item(
        &mut v,
        "+ Distance Increase",
        "I",
        AppSignal::ScrollAction(ScrollAction::IncreaseDistance),
    );
    push_item(
        &mut v,
        "- Distance Decrease",
        "D",
        AppSignal::ScrollAction(ScrollAction::DecreaseDistance),
    );
    push_item(&mut v, "\u{f08a6} Top", "GG", AppSignal::ScrollAction(ScrollAction::Top));
    push_item(
        &mut v,
        "\u{f08a2} Bottom",
        "\u{f0636}G",
        AppSignal::ScrollAction(ScrollAction::Bottom),
    );
    assert(items_view(v@) =~= scrollbar_spec());
    v
}

pub fn text_action_menu_items() -> (r: Vec<MenuItem>)
    ensures
        items_view(r@) == text_action_spec(),
{
    let mut v: Vec<MenuItem> = Vec::new();
    assert(items_view(v@) =~= Seq::empty());
    push_item(&mut v, "\u{2bba} Copy", "C", AppSignal::TextAction(TextAction::Copy));
    push_item(&mut v, "\u{25eb} Dictionary", "D", AppSignal::TextAction(TextAction::Dictionary));
    push_item(&mut v, "\u{f00fb} Split", "S", AppSignal::TextAction(TextAction::Split));
    assert(items_view(v@) =~= text_action_spec());
    v
}

pub fn image_action_menu_items() -> (r: Vec<MenuItem>)
    ensures
        items_view(r@) == image_action_spec(),
{
    let mut v: Vec<MenuItem> = Vec::new();
    assert(items_view(v@) =~= Seq::empty());
    push_item(&mut v, "\u{f113a} Image OCR", "O", AppSignal::FrameOCR);
    assert(items_view(v@) =~= image_action_spec());
    v
}

#[derive(Debug, PartialEq, Eq, Clone, Copy, Structural)]
pub enum MenuType {
    Dashboard,
    TextAction,
    ImageAction,
    Scroll,
}

pub open spec fn base_items_spec(t: MenuType) -> Seq<(Seq<char>, Seq<char>, AppSignalModel)> {
    match t {
        MenuType::Dashboard => dash_board_spec(),
        MenuType::TextAction => text_action_spec(),
        MenuType::ImageAction => image_action_spec(),
        MenuType::Scroll => scrollbar_spec(),
    }
}

/// Whether a menu offers the configured workflows.
pub open spec fn offers_workflows(t: MenuType) -> bool {
    t != MenuType::Scroll
}

/// Whether a menu offers the configured text actions.
pub open spec fn offers_text_actions(t: MenuType) -> bool {
    t == MenuType::TextAction
}

/// What the editor key does in a menu, if the menu offers it.
pub open spec fn editor_signal_spec(t: MenuType) -> Option<AppSignalModel> {
    match t {
        MenuType::Dashboard => Some(activate(TargetModel::Edit)),
        MenuType::TextAction => Some(AppSignalModel::TextAction(TextAction::Editor)),
        _ => None,
    }
}

/// A menu's key table, in insertion order: workflows, text actions, the
/// editor, then the built-in items. A later entry shadows an earlier one
/// with the same keys.
pub open spec fn menu_entries_spec(t: MenuType, config: GlyphlowConfig) -> Seq<
    (Seq<char>, AppSignalModel),
> {
    let flows = config.workflows@;
    let actions = config.text_actions@;
    let workflow_entries = if offers_workflows(t) {
        Seq::new(flows.len(), |i: int| (flows[i].key@, AppSignalModel::RunWorkFlow(i as usize)))
    } else {
        Seq::empty()
    };
    let action_entries = if offers_text_actions(t) {
        Seq::new(
            actions.len(),
            |i: int| (actions[i].key@, AppSignalModel::TextAction(TextAction::UserDefined(i as usize))),
        )
    } else {
        Seq::empty()
    };
    let editor_entries = match (editor_signal_spec(t), config.editor) {
        (Some(sig), Some(editor)) => seq![(editor.key@, sig)],
        _ => Seq::empty(),
    };
    let base = base_items_spec(t).map_values(
        |it: (Seq<char>, Seq<char>, AppSignalModel)| (it.1, it.2),
    );
    workflow_entries + action_entries + editor_entries + base
}

/// The signal bound to `key`: the last entry with exactly these keys.
pub open spec fn lookup_spec(entries: Seq<(Seq<char>, AppSignalModel)>, key: Seq<char>) -> Option<
    AppSignalModel,
>
    decreases entries.len(),
{
    if entries.len() == 0 {
        None
    } else if entries.last().0 == key {
        Some(entries.last().1)
    } else {
        lookup_spec(entries.drop_last(), key)
    }
}

/// Length of the longest key sequence in a table.
pub open spec fn max_key_len_spec(entries: Seq<(Seq<char>, AppSignalModel)>) -> nat
    decreases entries.len(),
{
    if entries.len() == 0 {
        0
    } else {
        let rest = max_key_len_spec(entries.drop_last());
        if entries.last().0.len() > rest {
            entries.last().0.len()
        } else {
            rest
        }
    }
}

pub open spec fn entries_view(entries: Seq<(String, AppSignal)>) -> Seq<(Seq<char>, AppSignalModel)> {
    entries.map_values(|e: (String, AppSignal)| (e.0@, e.1@))
}

/// The key table of one menu.
#[derive(Debug)]
pub struct MenuTable {
    entries: Vec<(String, AppSignal)>,
    max_key_len: usize,
}

impl MenuTable {
    pub closed spec fn entries_spec(&self) -> Seq<(Seq<char>, AppSignalModel)> {
        entries_view(self.entries@)
    }

    pub closed spec fn max_len(&self) -> nat {
        self.max_key_len as nat
    }

    #[verifier::type_invariant]
    closed spec fn well_formed(self) -> bool {
        self.max_key_len as nat == max_key_len_spec(entries_view(self.entries@))
    }

    /// How many keys the longest entry takes.
    pub fn max_key_len(&self) -> (r: usize)
        ensures
            r == self.max_len(),
            r == max_key_len_spec(self.entries_spec()),
    {
        proof {
            use_type_invariant(self);
        }
        self.max_key_len
    }

    /// The signal bound to exactly these keys.
    pub fn lookup(&self, key: &String) -> (r: Option<AppSignal>)
        ensures
            match r {
                Some(s) => lookup_spec(self.entries_spec(), key@) == Some(s@),
                None => lookup_spec(self.entries_spec(), key@) is None,
            },
    {
        let mut i: usize = self.entries.len();
        assert(self.entries@.take(i as int) =~= self.entries@);
        while i > 0
            invariant
                i <= self.entries@.len(),
                lookup_spec(entries_view(self.entries@), key@) == lookup_spec(
                    entries_view(self.entries@.take(i as int)),
                    key@,
                ),
            decreases i,
        {
            let ghost cur = entries_view(self.entries@.take(i as int));
            assert(cur.drop_last() =~= entries_view(self.entries@.take(i - 1)));
            assert(cur.last() == (self.entries@[i - 1].0@, self.entries@[i - 1].1@));
            if self.entries[i - 1].0 == *key {
                return Some(self.entries[i - 1].1.clone());
            }
            i = i - 1;
        }
        assert(entries_view(self.entries@.take(0)) =~= Seq::empty());
        None
    }

    /// The table of one menu, built from the configuration.
    pub fn build(menu_type: MenuType, config: &GlyphlowConfig) -> (r: MenuTable)
        ensures
            r.entries_spec() == menu_entries_spec(menu_type, *config),
            r.max_len() == max_key_len_spec(menu_entries_spec(menu_type, *config)),
    {
        let (entries, max_key_len) = menu_action_helper(menu_type, config);
        MenuTable { entries, max_key_len }
    }
}

fn push_entry(
    entries: &mut Vec<(String, AppSignal)>,
    max_len: &mut usize,
    key: String,
    signal: AppSignal,
)
    requires
        *old(max_len) == max_key_len_spec(entries_view(old(entries)@)),
    ensures
        entries_view(final(entries)@) == entries_view(old(entries)@).push((key@, signal@)),
        *final(max_len) == max_key_len_spec(entries_view(final(entries)@)),
{
    let ghost before = entries_view(entries@);
    let ghost k = key@;
    let ghost s = signal@;
    let n = key.as_str().unicode_len();
    if n > *max_len {
        *max_len = n;
    }
    entries.push((key, signal));
    assert(entries_view(entries@) =~= before.push((k, s)));
    assert(entries_view(entries@).drop_last() =~= before);
}

/// The key table of a menu, with the length of its longest key sequence.
pub fn menu_action_helper(menu_type: MenuType, config: &GlyphlowConfig) -> (r: (
    Vec<(String, AppSignal)>,
    usize,
))
    ensures
        entries_view(r.0@) == menu_entries_spec(menu_type, *config),
        r.1 == max_key_len_spec(menu_entries_spec(menu_type, *config)),
{
    let mut entries: Vec<(String, AppSignal)> = Vec::new();
    let mut max_len: usize = 0;
    let ghost flows = config.workflows@;
    let ghost actions = config.text_actions@;
    assert(entries_view(entries@) =~= Seq::empty());
    let need_workflow = match menu_type {
        MenuType::Scroll => false,
        _ => true,
    };
    if need_workflow {
        let mut i: usize = 0;
        while i < config.workflows.len()
            invariant
                i <= flows.len(),
                flows == config.workflows@,
                max_len == max_key_len_spec(entries_view(entries@)),
                entries_view(entries@) == Seq::new(
                    i as nat,
                    |k: int| (flows[k].key@, AppSignalModel::RunWorkFlow(k as usize)),
                ),
            decreases flows.len() - i,
        {
            push_entry(
                &mut entries,
                &mut max_len,
                config.workflows[i].key.clone(),
                AppSignal::RunWorkFlow(i),
            );
            i = i + 1;
            assert(entries_view(entries@) =~= Seq::new(
                i as nat,
                |k: int| (flows[k].key@, AppSignalModel::RunWorkFlow(k as usize)),
            ));
        }
    }
    let ghost after_flows = entries_view(entries@);
    let need_text_action = match menu_type {
        MenuType::TextAction => true,
        _ => false,
    };
    if need_text_action {
        let mut i: usize = 0;
        while i < config.text_actions.len()
            invariant
                i <= actions.len(),
                actions == config.text_actions@,
                max_len == max_key_len_spec(entries_view(entries@)),
                entries_view(entries@) == after_flows + Seq::new(
                    i as nat,
                    |k: int|
                        (
                            actions[k].key@,
                            AppSignalModel::TextAction(TextAction::UserDefined(k as usize)),
                        ),
                ),
            decreases actions.len() - i,
        {
            push_entry(
                &mut entries,
                &mut max_len,
                config.text_actions[i].key.clone(),
                AppSignal::TextAction(TextAction::UserDefined(i)),
            );
            i = i + 1;
            assert(entries_view(entries@) =~= after_flows + Seq::new(
                i as nat,
                |k: int|
                    (actions[k].key@, AppSignalModel::TextAction(TextAction::UserDefined(k as usize))),
            ));
        }
    }
    let ghost after_actions = entries_view(entries@);
    let editor_signal = match menu_type {
        MenuType::Dashboard => Some(AppSignal::Activate(Target::Edit)),
        MenuType::TextAction => Some(AppSignal::TextAction(TextAction::Editor)),
        _ => None,
    };
    match (editor_signal, &config.editor) {
        (Some(sig), Some(editor)) => {
            push_entry(&mut entries, &mut max_len, editor.key.clone(), sig);
        },
        _ => {},
    }
    let ghost after_editor = entries_view(entries@);
    let base = match menu_type {
        MenuType::Dashboard => dash_board_menu_items(),
        MenuType::TextAction => text_action_menu_items(),
        MenuType::ImageAction => image_action_menu_items(),
        MenuType::Scroll => scrollbar_menu_items(),
    };
    let ghost base_view = items_view(base@);
    let mut j: usize = 0;
    while j < base.len()
        invariant
            j <= base@.len(),
            base_view == items_view(base@),
            max_len == max_key_len_spec(entries_view(entries@)),
            entries_view(entries@) == after_editor + base_view.take(j as int).map_values(
                |it: (Seq<char>, Seq<char>, AppSignalModel)| (it.1, it.2),
            ),
        decreases base@.len() - j,
    {
        push_entry(&mut entries, &mut max_len, base[j].key.clone(), base[j].action.clone());
        j = j + 1;
        assert(entries_view(entries@) =~= after_editor + base_view.take(j as int).map_values(
            |it: (Seq<char>, Seq<char>, AppSignalModel)| (it.1, it.2),
        ));
    }
    assert(base_view.take(j as int) =~= base_view);
    assert(entries_view(entries@) =~= menu_entries_spec(menu_type, *config));
    (entries, max_len)
}

/// Keys held down, the menu keys typed so far, and whether key events are
/// being simulated (and so must be let through).
#[derive(Debug)]
pub struct KeyState {
    pub pressed_keys: Vec<Key>,
    pub prefix: String,
    pub is_simulating: bool,
}

pub fn contains_key(v: &Vec<Key>, k: &Key) -> (r: bool)
    ensures
        r == v@.contains(*k),
{
    let mut i: usize = 0;
    while i < v.len()
        invariant
            i <= v@.len(),
            forall|j: int| 0 <= j < i ==> v@[j] != *k,
        decreases v@.len() - i,
    {
        if v[i] == *k {
            return true;
        }
        i = i + 1;
    }
    false
}

impl Default for KeyState {
    fn default() -> (r: Self)
        ensures
            r.pressed_keys@.len() == 0,
            r.prefix@.len() == 0,
            !r.is_simulating,
    {
        KeyState { pressed_keys: Vec::new(), prefix: String::new(), is_simulating: false }
    }
}

impl KeyState {
    /// The keys held down.
    pub open spec fn pressed(&self) -> Set<Key> {
        Set::new(|k: Key| self.pressed_keys@.contains(k))
    }

    pub fn key_down(&mut self, key: &Key)
        ensures
            final(self).pressed() == old(self).pressed().insert(*key),
            final(self).prefix == old(self).prefix,
            final(self).is_simulating == old(self).is_simulating,
    {
        if !contains_key(&self.pressed_keys, key) {
            let ghost before = self.pressed_keys@;
            self.pressed_keys.push(*key);
            assert forall|x: Key| self.pressed_keys@.contains(x) <==> (before.contains(x) || x
                == *key) by {
                if self.pressed_keys@.contains(x) && x != *key {
                    let j = choose|j: int| 0 <= j < self.pressed_keys@.len() && self.pressed_keys@[j]
                        == x;
                    assert(before[j] == x);
                }
                if before.contains(x) {
                    let j = choose|j: int| 0 <= j < before.len() && before[j] == x;
                    assert(self.pressed_keys@[j] == x);
                }
                assert(self.pressed_keys@[before.len() as int] == *key);
            }
            assert(self.pressed() =~= old(self).pressed().insert(*key));
        } else {
            assert(old(self).pressed() =~= old(self).pressed().insert(*key));
        }
    }

    pub fn key_up(&mut self, key: &Key)
        ensures
            final(self).pressed() == old(self).pressed().remove(*key),
            final(self).prefix == old(self).prefix,
            final(self).is_simulating == old(self).is_simulating,
    {
        let ghost start = self.pressed_keys@;
        let mut kept: Vec<Key> = Vec::new();
        let mut i: usize = 0;
        while i < self.pressed_keys.len()
            invariant
                start == self.pressed_keys@,
                i <= start.len(),
                forall|x: Key| #[trigger] kept@.contains(x) <==> (start.take(i as int).contains(x) && x != *key),
            decreases start.len() - i,
        {
            let k = self.pressed_keys[i];
            let ghost old_kept = kept@;
            if k != *key {
                kept.push(k);
            }
            let ghost prev = start.take(i as int);
            let ghost next = start.take(i + 1);
            assert(next =~= prev.push(k));
            assert forall|x: Key| kept@.contains(x) <==> (next.contains(x) && x != *key) by {
                if kept@.contains(x) {
                    let j = choose|j: int| 0 <= j < kept@.len() && kept@[j] == x;
                    if j < old_kept.len() {
                        assert(old_kept[j] == x);
                        assert(old_kept.contains(x));
                    } else {
                        assert(x == k);
                        assert(next[i as int] == x);
                    }
                }
                if old_kept.contains(x) {
                    let j = choose|j: int| 0 <= j < old_kept.len() && old_kept[j] == x;
                    assert(kept@[j] == x);
                }
                if x == k && k != *key {
                    assert(kept@[kept@.len() - 1] == x);
                }
                if prev.contains(x) {
                    let j = choose|j: int| 0 <= j < prev.len() && prev[j] == x;
                    assert(next[j] == x);
                }
                if next.contains(x) && !prev.contains(x) {
                    let j = choose|j: int| 0 <= j < next.len() && next[j] == x;
                    if j < i {
                        assert(prev[j] == x);
                    }
                }
            }
            i = i + 1;
        }
        assert(start.take(i as int) =~= start);
        self.pressed_keys = kept;
        assert(self.pressed() =~= old(self).pressed().remove(*key));
    }

    pub fn clear_prefix(&mut self)
        ensures
            final(self).prefix@.len() == 0,
            final(self).pressed_keys == old(self).pressed_keys,
            final(self).is_simulating == old(self).is_simulating,
    {
        self.prefix = String::new();
    }

    pub fn push(&mut self, key_char: char)
        ensures
            final(self).prefix@ == old(self).prefix@.push(key_char),
            final(self).pressed_keys == old(self).pressed_keys,
            final(self).is_simulating == old(self).is_simulating,
    {
        self.prefix.push(key_char);
    }

    pub fn pop(&mut self)
        ensures
            final(self).prefix@ == (if old(self).prefix@.len() > 0 {
                old(self).prefix@.drop_last()
            } else {
                old(self).prefix@
            }),
            final(self).pressed_keys == old(self).pressed_keys,
            final(self).is_simulating == old(self).is_simulating,
    {
        let _ = self.prefix.pop();
    }
}

/// Pushing a key then popping it gives the menu prefix back.
pub proof fn law_push_then_pop(prefix: Seq<char>, c: char)
    ensures
        prefix.push(c).drop_last() == prefix,
{
    assert(prefix.push(c).drop_last() =~= prefix);
}

/// The result of one key event: the next mode and menu prefix, whether the
/// key is swallowed, and the signal to send.
pub struct Step {
    pub mode: Mode,
    pub prefix: Seq<char>,
    pub swallow: bool,
    pub signal: Option<AppSignalModel>,
}

/// The menu prefix after typing `c`: `-` takes a key back, anything else is
/// added while the prefix is shorter than the longest menu key.
pub open spec fn menu_prefix_after(prefix: Seq<char>, c: char, max_len: nat) -> Seq<char> {
    if c == '-' {
        if prefix.len() > 0 {
            prefix.drop_last()
        } else {
            prefix
        }
    } else if prefix.len() < max_len {
        prefix.push(c)
    } else {
        prefix
    }
}

/// A key typed in a menu: a complete key sequence fires its entry (an
/// activation also switches to filtering), space leaves the menu, anything
/// else redraws the menu for the new prefix.
pub open spec fn menu_step(
    entries: Seq<(Seq<char>, AppSignalModel)>,
    max_len: nat,
    mode: Mode,
    c: char,
    prefix: Seq<char>,
) -> Step {
    let p = menu_prefix_after(prefix, c, max_len);
    match lookup_spec(entries, p) {
        Some(sig) => Step {
            mode: if sig is Activate {
                Mode::Filtering
            } else {
                mode
            },
            prefix: Seq::empty(),
            swallow: true,
            signal: Some(sig),
        },
        None => if c == ' ' {
            Step {
                mode: Mode::Idle,
                prefix: Seq::empty(),
                swallow: true,
                signal: Some(AppSignalModel::DeActivate),
            }
        } else {
            Step { mode, prefix: p, swallow: true, signal: Some(AppSignalModel::MenuRefresh(p)) }
        },
    }
}

/// A key typed while filtering hints: space leaves, anything else filters.
pub open spec fn filter_step(mode: Mode, c: char, filter_mode: FilterMode, prefix: Seq<char>) -> Step {
    if c == ' ' {
        Step { mode: Mode::Idle, prefix, swallow: true, signal: Some(AppSignalModel::DeActivate) }
    } else {
        Step { mode, prefix, swallow: true, signal: Some(AppSignalModel::Filter(c, filter_mode)) }
    }
}

/// Whether pressing `key` with `pressed` held completes the binding: every
/// key of it is the one pressed, is held, or has its right-hand twin held.
pub open spec fn binding_satisfied(binding: Seq<Key>, key: Key, pressed: Set<Key>) -> bool {
    forall|i: int|
        0 <= i < binding.len() ==> {
            let k = #[trigger] binding[i];
            ||| k == key
            ||| pressed.contains(k)
            ||| match key_right_alternative(k) {
                Some(r) => k == r || pressed.contains(r),
                None => false,
            }
        }
}

pub open spec fn is_shift(key: Key) -> bool {
    key == Key::ShiftLeft || key == Key::ShiftRight
}

pub open spec fn opt_signal_view(o: Option<AppSignal>) -> Option<AppSignalModel> {
    match o {
        Some(s) => Some(s@),
        None => None,
    }
}

/// What the listener does when it gets `key`, as the rest of the app sees it.
#[derive(Debug, PartialEq)]
pub struct KeyOutcome {
    /// Whether the key is kept from the focused application.
    pub swallow: bool,
    /// What to send to the engine.
    pub signal: Option<AppSignal>,
}

/// Decides key events from the mode and the configured menus.
#[derive(Debug)]
pub struct KeyListener {
    dashboard: MenuTable,
    text_action: MenuTable,
    image_action: MenuTable,
    scroll: MenuTable,
    global_key_binding: KeyBinding,
}

impl KeyListener {
    pub closed spec fn table_spec(&self, t: MenuType) -> MenuTable {
        match t {
            MenuType::Dashboard => self.dashboard,
            MenuType::TextAction => self.text_action,
            MenuType::ImageAction => self.image_action,
            MenuType::Scroll => self.scroll,
        }
    }

    pub closed spec fn binding(&self) -> Seq<Key> {
        self.global_key_binding@
    }

    /// The step `key` takes from `mode`, with `pressed` held and `prefix`
    /// typed in the current menu.
    pub open spec fn key_down_step(&self, mode: Mode, key: Key, pressed: Set<Key>, prefix: Seq<char>) -> Step {
        let c = key_char(key);
        let menu = |t: MenuType|
            menu_step(
                self.table_spec(t).entries_spec(),
                self.table_spec(t).max_len(),
                mode,
                c,
                prefix,
            );
        let toggles = mode == Mode::WordPicking || mode == Mode::Filtering || mode
            == Mode::OCRResultFiltering;
        if mode == Mode::Editing || mode == Mode::Idle {
            if binding_satisfied(self.binding(), key, pressed) {
                Step {
                    mode: Mode::DashBoard,
                    prefix,
                    swallow: true,
                    signal: Some(AppSignalModel::MenuRefresh(Seq::empty())),
                }
            } else {
                Step { mode, prefix, swallow: false, signal: None }
            }
        } else if mode == Mode::Filtering && key == Key::Return {
            Step {
                mode: Mode::DashBoard,
                prefix,
                swallow: true,
                signal: Some(AppSignalModel::MenuRefresh(Seq::empty())),
            }
        } else if toggles && is_shift(key) {
            Step { mode, prefix, swallow: true, signal: Some(AppSignalModel::ToggleMultiSelection) }
        } else {
            match mode {
                Mode::DashBoard => menu(MenuType::Dashboard),
                Mode::WordPicking => filter_step(mode, c, FilterMode::WordPicking, prefix),
                Mode::Filtering => filter_step(mode, c, FilterMode::Generic, prefix),
                Mode::OCRResultFiltering => filter_step(mode, c, FilterMode::OCR, prefix),
                Mode::TextActionMenu => menu(MenuType::TextAction),
                Mode::ImageActionMenu => menu(MenuType::ImageAction),
                Mode::Scrolling => menu(MenuType::Scroll),
                _ => Step {
                    mode: Mode::Idle,
                    prefix,
                    swallow: true,
                    signal: Some(AppSignalModel::DeActivate),
                },
            }
        }
    }

    /// Builds the menus' key tables from the configuration.
    pub fn new(config: &GlyphlowConfig) -> (r: KeyListener)
        ensures
            forall|t: MenuType|
                (#[trigger] r.table_spec(t)).entries_spec() == menu_entries_spec(t, *config)
                    && r.table_spec(t).max_len() == max_key_len_spec(menu_entries_spec(t, *config)),
            r.binding() == config.global_trigger_key@,
    {
        KeyListener {
            dashboard: MenuTable::build(MenuType::Dashboard, config),
            text_action: MenuTable::build(MenuType::TextAction, config),
            image_action: MenuTable::build(MenuType::ImageAction, config),
            scroll: MenuTable::build(MenuType::Scroll, config),
            global_key_binding: config.global_trigger_key.clone(),
        }
    }

    fn table(&self, t: MenuType) -> (r: &MenuTable)
        ensures
            *r == self.table_spec(t),
    {
        match t {
            MenuType::Dashboard => &self.dashboard,
            MenuType::TextAction => &self.text_action,
            MenuType::ImageAction => &self.image_action,
            MenuType::Scroll => &self.scroll,
        }
    }

    fn binding_holds(&self, key: Key, key_state: &KeyState) -> (r: bool)
        ensures
            r == binding_satisfied(self.binding(), key, key_state.pressed()),
    {
        let keys = &self.global_key_binding.keys;
        let mut i: usize = 0;
        while i < keys.len()
            invariant
                i <= keys@.len(),
                keys@ == self.binding(),
                binding_satisfied(keys@.take(i as int), key, key_state.pressed()),
            decreases keys@.len() - i,
        {
            let k = keys[i];
            let alt_ok = match k.right_alternative() {
                Some(r) => k == r || contains_key(&key_state.pressed_keys, &r),
                None => false,
            };
            let ok = k == key || contains_key(&key_state.pressed_keys, &k) || alt_ok;
            if !ok {
                assert(!binding_satisfied(keys@, key, key_state.pressed())) by {
                    assert(keys@[i as int] == k);
                }
                return false;
            }
            assert forall|j: int| 0 <= j < i + 1 implies {
                let kk = #[trigger] keys@.take(i + 1)[j];
                ||| kk == key
                ||| key_state.pressed().contains(kk)
                ||| match key_right_alternative(kk) {
                    Some(r) => kk == r || key_state.pressed().contains(r),
                    None => false,
                }
            } by {
                if j < i {
                    assert(keys@.take(i + 1)[j] == keys@.take(i as int)[j]);
                }
            }
            i = i + 1;
        }
        assert(keys@.take(i as int) =~= keys@);
        true
    }

    /// Applies a key typed in a menu.
    fn menu_helper(&self, key: &Key, menu_type: MenuType, state: &mut Mode, key_state: &mut KeyState) -> (r: KeyOutcome)
        ensures
            ({
                let step = menu_step(
                    self.table_spec(menu_type).entries_spec(),
                    self.table_spec(menu_type).max_len(),
                    *old(state),
                    key_char(*key),
                    old(key_state).prefix@,
                );
                &&& *final(state) == step.mode
                &&& final(key_state).prefix@ == step.prefix
                &&& r.swallow == step.swallow
                &&& opt_signal_view(r.signal) == step.signal
                &&& final(key_state).pressed_keys == old(key_state).pressed_keys
                &&& final(key_state).is_simulating == old(key_state).is_simulating
            }),
    {
        let table = self.table(menu_type);
        let key_char = key.to_char();
        if key_char == '-' {
            key_state.pop();
        } else if key_state.prefix.as_str().unicode_len() < table.max_key_len() {
            key_state.push(key_char);
        }
        match table.lookup(&key_state.prefix) {
            Some(signal) => {
                if let AppSignal::Activate(_) = signal {
                    *state = Mode::Filtering;
                }
                key_state.clear_prefix();
                assert(key_state.prefix@ =~= Seq::<char>::empty());
                KeyOutcome { swallow: true, signal: Some(signal) }
            },
            None => {
                if key_char == ' ' {
                    *state = Mode::Idle;
                    key_state.clear_prefix();
                    assert(key_state.prefix@ =~= Seq::<char>::empty());
                    KeyOutcome { swallow: true, signal: Some(AppSignal::DeActivate) }
                } else {
                    KeyOutcome {
                        swallow: true,
                        signal: Some(AppSignal::MenuRefresh(key_state.prefix.clone())),
                    }
                }
            },
        }
    }

    /// Applies a key typed while filtering.
    fn filter_helper(&self, key: &Key, state: &mut Mode, mode: FilterMode) -> (r: KeyOutcome)
        ensures
            ({
                let step = filter_step(*old(state), key_char(*key), mode, Seq::empty());
                &&& *final(state) == step.mode
                &&& r.swallow == step.swallow
                &&& opt_signal_view(r.signal) == step.signal
            }),
    {
        let key_char = key.to_char();
        if key_char == ' ' {
            *state = Mode::Idle;
            KeyOutcome { swallow: true, signal: Some(AppSignal::DeActivate) }
        } else {
            KeyOutcome { swallow: true, signal: Some(AppSignal::Filter(key_char, mode)) }
        }
    }

    /// Decides what `key` does in `state`: updates the mode and the typed menu
    /// prefix, and says whether to swallow the key and what to send.
    pub fn key_down(&self, key: Key, state: &mut Mode, key_state: &mut KeyState) -> (r: KeyOutcome)
        ensures
            ({
                let step = self.key_down_step(
                    *old(state),
                    key,
                    old(key_state).pressed(),
                    old(key_state).prefix@,
                );
                &&& *final(state) == step.mode
                &&& final(key_state).prefix@ == step.prefix
                &&& r.swallow == step.swallow
                &&& opt_signal_view(r.signal) == step.signal
                &&& final(key_state).pressed_keys == old(key_state).pressed_keys
                &&& final(key_state).is_simulating == old(key_state).is_simulating
            }),
    {
        let mode = *state;
        let toggles = mode == Mode::WordPicking || mode == Mode::Filtering || mode
            == Mode::OCRResultFiltering;
        if mode == Mode::Editing || mode == Mode::Idle {
            if self.binding_holds(key, key_state) {
                *state = Mode::DashBoard;
                let refresh = AppSignal::MenuRefresh(String::new());
                assert(refresh@ == AppSignalModel::MenuRefresh(Seq::empty()));
                KeyOutcome { swallow: true, signal: Some(refresh) }
            } else {
                KeyOutcome { swallow: false, signal: None }
            }
        } else if mode == Mode::Filtering && key == Key::Return {
            *state = Mode::DashBoard;
            let refresh = AppSignal::MenuRefresh(String::new());
            assert(refresh@ == AppSignalModel::MenuRefresh(Seq::empty()));
            KeyOutcome { swallow: true, signal: Some(refresh) }
        } else if toggles && (key == Key::ShiftLeft || key == Key::ShiftRight) {
            KeyOutcome { swallow: true, signal: Some(AppSignal::ToggleMultiSelection) }
        } else {
            match mode {
                Mode::DashBoard => self.menu_helper(&key, MenuType::Dashboard, state, key_state),
                Mode::WordPicking => self.filter_helper(&key, state, FilterMode::WordPicking),
                Mode::Filtering => self.filter_helper(&key, state, FilterMode::Generic),
                Mode::OCRResultFiltering => self.filter_helper(&key, state, FilterMode::OCR),
                Mode::TextActionMenu => self.menu_helper(
                    &key,
                    MenuType::TextAction,
                    state,
                    key_state,
                ),
                Mode::ImageActionMenu => self.menu_helper(
                    &key,
                    MenuType::ImageAction,
                    state,
                    key_state,
                ),
                Mode::Scrolling => self.menu_helper(&key, MenuType::Scroll, state, key_state),
                _ => {
                    *state = Mode::Idle;
                    KeyOutcome { swallow: true, signal: Some(AppSignal::DeActivate) }
                },
            }
        }
    }
}

/// While idle or editing, a key that does not complete the global binding
/// is passed on untouched: nothing is swallowed, sent or changed.
pub proof fn law_unbound_keys_pass_through(
    listener: KeyListener,
    mode: Mode,
    key: Key,
    pressed: Set<Key>,
    prefix: Seq<char>,
)
    requires
        mode == Mode::Idle || mode == Mode::Editing,
        !binding_satisfied(listener.binding(), key, pressed),
    ensures
        listener.key_down_step(mode, key, pressed, prefix) == (Step {
            mode,
            prefix,
            swallow: false,
            signal: None,
        }),
{
}

/// While idle or editing, completing the global binding opens the dashboard.
pub proof fn law_binding_opens_dashboard(
    listener: KeyListener,
    mode: Mode,
    key: Key,
    pressed: Set<Key>,
    prefix: Seq<char>,
)
    requires
        mode == Mode::Idle || mode == Mode::Editing,
        binding_satisfied(listener.binding(), key, pressed),
    ensures
        listener.key_down_step(mode, key, pressed, prefix).mode == Mode::DashBoard,
        listener.key_down_step(mode, key, pressed, prefix).swallow,
{
}

/// Once Glyphlow is active, every key is kept from the focused application.
pub proof fn law_active_modes_swallow_keys(
    listener: KeyListener,
    mode: Mode,
    key: Key,
    pressed: Set<Key>,
    prefix: Seq<char>,
)
    requires
        mode != Mode::Idle,
        mode != Mode::Editing,
    ensures
        listener.key_down_step(mode, key, pressed, prefix).swallow,
        listener.key_down_step(mode, key, pressed, prefix).signal is Some,
{
    let c = key_char(key);
    let t = match mode {
        Mode::TextActionMenu => MenuType::TextAction,
        Mode::ImageActionMenu => MenuType::ImageAction,
        Mode::Scrolling => MenuType::Scroll,
        _ => MenuType::Dashboard,
    };
    let p = menu_prefix_after(prefix, c, listener.table_spec(t).max_len());
    let _ = lookup_spec(listener.table_spec(t).entries_spec(), p);
}

/// An activation always hands the keyboard to hint filtering.
pub proof fn law_activation_starts_filtering(
    listener: KeyListener,
    mode: Mode,
    key: Key,
    pressed: Set<Key>,
    prefix: Seq<char>,
)
    ensures
        listener.key_down_step(mode, key, pressed, prefix).signal matches Some(
            AppSignalModel::Activate(_),
        ) ==> listener.key_down_step(mode, key, pressed, prefix).mode == Mode::Filtering,
{
}

/// The keys typed in a menu never outgrow its longest key sequence, and
/// firing an entry or leaving the menu clears them.
pub proof fn law_menu_prefix_bounded(
    listener: KeyListener,
    mode: Mode,
    key: Key,
    pressed: Set<Key>,
    prefix: Seq<char>,
    t: MenuType,
)
    requires
        (mode == Mode::DashBoard && t == MenuType::Dashboard) || (mode == Mode::TextActionMenu && t
            == MenuType::TextAction) || (mode == Mode::ImageActionMenu && t == MenuType::ImageAction)
            || (mode == Mode::Scrolling && t == MenuType::Scroll),
        prefix.len() <= listener.table_spec(t).max_len(),
    ensures
        listener.key_down_step(mode, key, pressed, prefix).prefix.len() <= listener.table_spec(
            t,
        ).max_len(),
{
}

/// After a notification that waits for any key, the next key deactivates.
pub proof fn law_any_key_dismisses(
    listener: KeyListener,
    key: Key,
    pressed: Set<Key>,
    prefix: Seq<char>,
)
    ensures
        listener.key_down_step(Mode::WaitAndDeactivate, key, pressed, prefix).mode == Mode::Idle,
        listener.key_down_step(Mode::WaitAndDeactivate, key, pressed, prefix).signal == Some(
            AppSignalModel::DeActivate,
        ),
{
}

/// In the filtering modes (word picking, element filtering, text
/// recognition) either Shift key toggles range picking: it is swallowed, the
/// mode and the typed prefix stay, and nothing is typed into the filter.
pub proof fn law_shift_toggles_range_picking(
    listener: KeyListener,
    mode: Mode,
    key: Key,
    pressed: Set<Key>,
    prefix: Seq<char>,
)
    requires
        mode == Mode::WordPicking || mode == Mode::Filtering || mode == Mode::OCRResultFiltering,
        key == Key::ShiftLeft || key == Key::ShiftRight,
    ensures
        listener.key_down_step(mode, key, pressed, prefix).signal == Some(
            AppSignalModel::ToggleMultiSelection,
        ),
        listener.key_down_step(mode, key, pressed, prefix).mode == mode,
        listener.key_down_step(mode, key, pressed, prefix).prefix == prefix,
        listener.key_down_step(mode, key, pressed, prefix).swallow,
{
}

/// In the filtering modes every other key but space and (while filtering
/// elements) Return is typed into the filter as its character, in the mode's
/// filter, and the mode stays.
pub proof fn law_filtering_types_keys(
    listener: KeyListener,
    mode: Mode,
    key: Key,
    pressed: Set<Key>,
    prefix: Seq<char>,
)
    requires
        mode == Mode::WordPicking || mode == Mode::Filtering || mode == Mode::OCRResultFiltering,
        key != Key::ShiftLeft,
        key != Key::ShiftRight,
        key != Key::Return,
        key_char(key) != ' ',
    ensures
        listener.key_down_step(mode, key, pressed, prefix).signal == Some(
            AppSignalModel::Filter(
                key_char(key),
                if mode == Mode::WordPicking {
                    FilterMode::WordPicking
                } else if mode == Mode::Filtering {
                    FilterMode::Generic
                } else {
                    FilterMode::OCR
                },
            ),
        ),
        listener.key_down_step(mode, key, pressed, prefix).mode == mode,
{
}

/// A key sequence finds the last entry bound to exactly it, and nothing when
/// no entry is.
pub proof fn law_lookup_last_entry(entries: Seq<(Seq<char>, AppSignalModel)>, key: Seq<char>)
    ensures
        lookup_spec(entries, key) is None <==> forall|i: int| 0 <= i < entries.len() ==> (#[trigger] entries[i]).0 != key,
        lookup_spec(entries, key) matches Some(sig) ==> exists|i: int|
            0 <= i < entries.len() && #[trigger] entries[i] == (key, sig) && forall|j: int|
                i < j < entries.len() ==> (#[trigger] entries[j]).0 != key,
    decreases entries.len(),
{
    if entries.len() > 0 {
        let p = entries.drop_last();
        law_lookup_last_entry(p, key);
        let n = entries.len() - 1;
        if entries.last().0 == key {
            assert(entries[n] == (key, entries.last().1));
        } else {
            assert forall|i: int| 0 <= i < n implies entries[i] == p[i] by {}
            if lookup_spec(p, key) is None {
                assert forall|i: int| 0 <= i < entries.len() implies (#[trigger] entries[i]).0 != key by {
                    if i < n {
                        assert(entries[i] == p[i]);
                    }
                }
            } else {
                let sig = lookup_spec(p, key)->0;
                let i = choose|i: int|
                    0 <= i < p.len() && #[trigger] p[i] == (key, sig) && forall|j: int|
                        i < j < p.len() ==> (#[trigger] p[j]).0 != key;
                assert(entries[i] == (key, sig));
                assert forall|j: int| i < j < entries.len() implies (#[trigger] entries[j]).0 != key by {
                    if j < n {
                        assert(entries[j] == p[j]);
                    }
                }
            }
            if exists|i: int| 0 <= i < entries.len() && (#[trigger] entries[i]).0 == key {
                let i = choose|i: int| 0 <= i < entries.len() && (#[trigger] entries[i]).0 == key;
                assert(p[i] == entries[i]);
            }
        }
    }
}

/// In a menu, a key that completes the keys of an entry fires that entry's
/// signal and clears the typed keys; an activation also starts filtering.
/// A key that completes no entry fires nothing but a redraw of the menu
/// (or, for space, closing it).
pub proof fn law_menu_fires_entries(
    entries: Seq<(Seq<char>, AppSignalModel)>,
    max_len: nat,
    mode: Mode,
    c: char,
    prefix: Seq<char>,
    i: int,
)
    requires
        0 <= i < entries.len(),
        entries[i].0 == menu_prefix_after(prefix, c, max_len),
        forall|j: int| i < j < entries.len() ==> (#[trigger] entries[j]).0 != entries[i].0,
    ensures
        menu_step(entries, max_len, mode, c, prefix).signal == Some(entries[i].1),
        menu_step(entries, max_len, mode, c, prefix).prefix.len() == 0,
        menu_step(entries, max_len, mode, c, prefix).swallow,
        entries[i].1 is Activate ==> menu_step(entries, max_len, mode, c, prefix).mode == Mode::Filtering,
        !(entries[i].1 is Activate) ==> menu_step(entries, max_len, mode, c, prefix).mode == mode,
{
    let p = menu_prefix_after(prefix, c, max_len);
    law_lookup_last_entry(entries, p);
    let sig = lookup_spec(entries, p)->0;
    let k = choose|k: int|
        0 <= k < entries.len() && #[trigger] entries[k] == (p, sig) && forall|j: int|
            k < j < entries.len() ==> (#[trigger] entries[j]).0 != p;
    if k < i {
        assert(entries[i].0 == p);
    } else if k > i {
        assert(entries[k].0 == p);
    }
}

} // verus!
