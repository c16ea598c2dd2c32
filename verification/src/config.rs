//! The configuration: workflows, text actions, key bindings and the limits the
//! element search works with. Floating-point settings are carried as the bit
//! patterns of their `f64` values (`f64::to_bits`), so they pass through
//! unchanged.

use vstd::prelude::*;
use crate::hint_keys::default_alphabet;
pub use crate::hint_keys::HintKeys;
use crate::keys::Key;

verus! {

/// What kind of UI element a workflow starts from, or an element was found as.
#[derive(Debug, PartialEq, Eq, Clone, Copy, Structural)]
pub enum RoleOfInterest {
    Button,
    CheckBox,
    Generic,
    Any,
    AnySelection,
    Image,
    MenuItem,
    ScrollBar,
    StaticText,
    TextField,
    PseudoText,
    Cell,
    CustomTarget,
}

impl Default for RoleOfInterest {
    fn default() -> (r: Self)
        ensures
            r == RoleOfInterest::Generic,
    {
        RoleOfInterest::Generic
    }
}

/// How strictly an element's visibility is checked while searching.
#[derive(Debug, PartialEq, Eq, Clone, Copy, Structural)]
pub enum VisibilityCheckingLevel {
    /// The frame only has to meet the screen; kept for specific targets.
    Loosest,
    /// The frame has to meet the window frame.
    Loose,
    /// The frame has to meet its parent's and the window frame.
    Medium,
    /// The frame has to meet every ancestor's.
    Strict,
}

pub open spec fn strings_view(v: Seq<String>) -> Seq<Seq<char>> {
    v.map_values(|s: String| s@)
}

pub open spec fn opt_string_view(o: Option<String>) -> Option<Seq<char>> {
    match o {
        Some(s) => Some(s@),
        None => None,
    }
}

pub fn clone_strings(v: &Vec<String>) -> (r: Vec<String>)
    ensures
        strings_view(r@) == strings_view(v@),
{
    let mut r: Vec<String> = Vec::new();
    let mut i: usize = 0;
    while i < v.len()
        invariant
            i <= v@.len(),
            strings_view(r@) == strings_view(v@.take(i as int)),
        decreases v@.len() - i,
    {
        r.push(v[i].clone());
        assert(strings_view(v@.take(i + 1)) =~= strings_view(v@.take(i as int)).push(v@[i as int]@));
        i = i + 1;
    }
    assert(v@.take(i as int) =~= v@);
    r
}

pub fn clone_opt_string(o: &Option<String>) -> (r: Option<String>)
    ensures
        opt_string_view(r) == opt_string_view(*o),
{
    match o {
        Some(s) => Some(s.clone()),
        None => None,
    }
}

/// A key combination, pressed together.
#[derive(Debug, PartialEq)]
pub struct KeyBinding {
    pub keys: Vec<Key>,
}

impl View for KeyBinding {
    type V = Seq<Key>;

    open spec fn view(&self) -> Seq<Key> {
        self.keys@
    }
}

impl Clone for KeyBinding {
    fn clone(&self) -> (r: Self)
        ensures
            r@ == self@,
    {
        KeyBinding { keys: clone_keys(&self.keys) }
    }
}

pub fn clone_keys(v: &Vec<Key>) -> (r: Vec<Key>)
    ensures
        r@ == v@,
{
    let mut r: Vec<Key> = Vec::new();
    let mut i: usize = 0;
    while i < v.len()
        invariant
            i <= v@.len(),
            r@ == v@.take(i as int),
        decreases v@.len() - i,
    {
        r.push(v[i]);
        assert(v@.take(i + 1) =~= v@.take(i as int).push(v@[i as int]));
        i = i + 1;
    }
    assert(v@.take(i as int) =~= v@);
    r
}

/// Whether two key sequences are the same.
pub fn keys_equal(a: &Vec<Key>, b: &Vec<Key>) -> (r: bool)
    ensures
        r == (a@ == b@),
{
    if a.len() != b.len() {
        return false;
    }
    let mut i: usize = 0;
    while i < a.len()
        invariant
            a@.len() == b@.len(),
            i <= a@.len(),
            forall|j: int| 0 <= j < i ==> a@[j] == b@[j],
        decreases a@.len() - i,
    {
        if a[i] != b[i] {
            return false;
        }
        i = i + 1;
    }
    assert(a@ =~= b@);
    true
}

/// A shell command offered as a text action, or the editor.
#[derive(Debug, PartialEq)]
pub struct CommandAction {
    pub command: String,
    pub args: Vec<String>,
    pub display: String,
    pub key: String,
}

pub struct CommandActionModel {
    pub command: Seq<char>,
    pub args: Seq<Seq<char>>,
    pub display: Seq<char>,
    pub key: Seq<char>,
}

impl View for CommandAction {
    type V = CommandActionModel;

    open spec fn view(&self) -> CommandActionModel {
        CommandActionModel {
            command: self.command@,
            args: strings_view(self.args@),
            display: self.display@,
            key: self.key@,
        }
    }
}

impl Clone for CommandAction {
    fn clone(&self) -> (r: Self)
        ensures
            r@ == self@,
    {
        CommandAction {
            command: self.command.clone(),
            args: clone_strings(&self.args),
            display: self.display.clone(),
            key: self.key.clone(),
        }
    }
}

pub open spec fn opt_command_view(o: Option<CommandAction>) -> Option<CommandActionModel> {
    match o {
        Some(c) => Some(c@),
        None => None,
    }
}

pub open spec fn commands_view(v: Seq<CommandAction>) -> Seq<CommandActionModel> {
    v.map_values(|c: CommandAction| c@)
}

pub fn clone_commands(v: &Vec<CommandAction>) -> (r: Vec<CommandAction>)
    ensures
        commands_view(r@) == commands_view(v@),
{
    let mut r: Vec<CommandAction> = Vec::new();
    let mut i: usize = 0;
    while i < v.len()
        invariant
            i <= v@.len(),
            commands_view(r@) == commands_view(v@.take(i as int)),
        decreases v@.len() - i,
    {
        r.push(v[i].clone());
        assert(commands_view(v@.take(i + 1)) =~= commands_view(v@.take(i as int)).push(
            v@[i as int]@,
        ));
        i = i + 1;
    }
    assert(v@.take(i as int) =~= v@);
    r
}

pub fn clone_opt_command(o: &Option<CommandAction>) -> (r: Option<CommandAction>)
    ensures
        opt_command_view(r) == opt_command_view(*o),
{
    match o {
        Some(c) => Some(c.clone()),
        None => None,
    }
}

/// An element a workflow searches for. Unset fields do not constrain the
/// search; `size` holds the bit patterns of the `f64` width and height.
#[derive(Debug, PartialEq)]
pub struct CustomTarget {
    pub role: String,
    pub subrole: Option<String>,
    pub label: Option<String>,
    pub value: Option<String>,
    pub title: Option<String>,
    pub description: Option<String>,
    pub size: Option<(u64, u64)>,
    pub action: Option<String>,
}

pub struct CustomTargetModel {
    pub role: Seq<char>,
    pub subrole: Option<Seq<char>>,
    pub label: Option<Seq<char>>,
    pub value: Option<Seq<char>>,
    pub title: Option<Seq<char>>,
    pub description: Option<Seq<char>>,
    pub size: Option<(u64, u64)>,
    pub action: Option<Seq<char>>,
}

impl View for CustomTarget {
    type V = CustomTargetModel;

    open spec fn view(&self) -> CustomTargetModel {
        CustomTargetModel {
            role: self.role@,
            subrole: opt_string_view(self.subrole),
            label: opt_string_view(self.label),
            value: opt_string_view(self.value),
            title: opt_string_view(self.title),
            description: opt_string_view(self.description),
            size: self.size,
            action: opt_string_view(self.action),
        }
    }
}

/// A target constraining nothing but its role.
pub open spec fn target_with(role: Seq<char>, title: Option<Seq<char>>) -> CustomTargetModel {
    CustomTargetModel {
        role,
        subrole: None,
        label: None,
        value: None,
        title,
        description: None,
        size: None,
        action: None,
    }
}

impl Clone for CustomTarget {
    fn clone(&self) -> (r: Self)
        ensures
            r@ == self@,
    {
        CustomTarget {
            role: self.role.clone(),
            subrole: clone_opt_string(&self.subrole),
            label: clone_opt_string(&self.label),
            value: clone_opt_string(&self.value),
            title: clone_opt_string(&self.title),
            description: clone_opt_string(&self.description),
            size: self.size,
            action: clone_opt_string(&self.action),
        }
    }
}

impl Default for CustomTarget {
    fn default() -> (r: Self)
        ensures
            r@ == target_with(Seq::empty(), None),
    {
        CustomTarget {
            role: String::new(),
            subrole: None,
            label: None,
            value: None,
            title: None,
            description: None,
            size: None,
            action: None,
        }
    }
}

/// One step of a workflow. `Move` holds the bit patterns of its `f64`
/// coordinates.
#[derive(Debug, PartialEq)]
pub enum WorkFlowAction {
    Debug,
    SelectAll,
    GoParent,
    Focus,
    Press,
    Hover,
    Move(u64, u64),
    Click,
    RightClick,
    MiddleClick,
    ShowMenu,
    GlyphlowMenu,
    KeyCombo(KeyBinding),
    SearchFor(CustomTarget),
    Sleep(u64),
}

pub enum WorkFlowActionModel {
    Debug,
    SelectAll,
    GoParent,
    Focus,
    Press,
    Hover,
    Move(u64, u64),
    Click,
    RightClick,
    MiddleClick,
    ShowMenu,
    GlyphlowMenu,
    KeyCombo(Seq<Key>),
    SearchFor(CustomTargetModel),
    Sleep(u64),
}

impl View for WorkFlowAction {
    type V = WorkFlowActionModel;

    open spec fn view(&self) -> WorkFlowActionModel {
        match self {
            WorkFlowAction::Debug => WorkFlowActionModel::Debug,
            WorkFlowAction::SelectAll => WorkFlowActionModel::SelectAll,
            WorkFlowAction::GoParent => WorkFlowActionModel::GoParent,
            WorkFlowAction::Focus => WorkFlowActionModel::Focus,
            WorkFlowAction::Press => WorkFlowActionModel::Press,
            WorkFlowAction::Hover => WorkFlowActionModel::Hover,
            WorkFlowAction::Move(x, y) => WorkFlowActionModel::Move(*x, *y),
            WorkFlowAction::Click => WorkFlowActionModel::Click,
            WorkFlowAction::RightClick => WorkFlowActionModel::RightClick,
            WorkFlowAction::MiddleClick => WorkFlowActionModel::MiddleClick,
            WorkFlowAction::ShowMenu => WorkFlowActionModel::ShowMenu,
            WorkFlowAction::GlyphlowMenu => WorkFlowActionModel::GlyphlowMenu,
            WorkFlowAction::KeyCombo(kb) => WorkFlowActionModel::KeyCombo(kb@),
            WorkFlowAction::SearchFor(ct) => WorkFlowActionModel::SearchFor(ct@),
            WorkFlowAction::Sleep(ms) => WorkFlowActionModel::Sleep(*ms),
        }
    }
}

impl Clone for WorkFlowAction {
    fn clone(&self) -> (r: Self)
        ensures
            r@ == self@,
    {
        match self {
            WorkFlowAction::Debug => WorkFlowAction::Debug,
            WorkFlowAction::SelectAll => WorkFlowAction::SelectAll,
            WorkFlowAction::GoParent => WorkFlowAction::GoParent,
            WorkFlowAction::Focus => WorkFlowAction::Focus,
            WorkFlowAction::Press => WorkFlowAction::Press,
            WorkFlowAction::Hover => WorkFlowAction::Hover,
            WorkFlowAction::Move(x, y) => WorkFlowAction::Move(*x, *y),
            WorkFlowAction::Click => WorkFlowAction::Click,
            WorkFlowAction::RightClick => WorkFlowAction::RightClick,
            WorkFlowAction::MiddleClick => WorkFlowAction::MiddleClick,
            WorkFlowAction::ShowMenu => WorkFlowAction::ShowMenu,
            WorkFlowAction::GlyphlowMenu => WorkFlowAction::GlyphlowMenu,
            WorkFlowAction::KeyCombo(kb) => WorkFlowAction::KeyCombo(kb.clone()),
            WorkFlowAction::SearchFor(ct) => WorkFlowAction::SearchFor(ct.clone()),
            WorkFlowAction::Sleep(ms) => WorkFlowAction::Sleep(*ms),
        }
    }
}

pub open spec fn actions_view(v: Seq<WorkFlowAction>) -> Seq<WorkFlowActionModel> {
    v.map_values(|a: WorkFlowAction| a@)
}

pub fn clone_actions(v: &Vec<WorkFlowAction>) -> (r: Vec<WorkFlowAction>)
    ensures
        actions_view(r@) == actions_view(v@),
{
    let mut r: Vec<WorkFlowAction> = Vec::new();
    let mut i: usize = 0;
    while i < v.len()
        invariant
            i <= v@.len(),
            actions_view(r@) == actions_view(v@.take(i as int)),
        decreases v@.len() - i,
    {
        r.push(v[i].clone());
        assert(actions_view(v@.take(i + 1)) =~= actions_view(v@.take(i as int)).push(
            v@[i as int]@,
        ));
        i = i + 1;
    }
    assert(v@.take(i as int) =~= v@);
    r
}

/// A named sequence of actions, offered in the menus under `key`.
#[derive(Debug, PartialEq)]
pub struct WorkFlow {
    pub display: String,
    pub key: String,
    pub valid_app_ids: Option<Vec<String>>,
    pub starting_role: RoleOfInterest,
    pub actions: Vec<WorkFlowAction>,
}

pub struct WorkFlowModel {
    pub display: Seq<char>,
    pub key: Seq<char>,
    pub valid_app_ids: Option<Seq<Seq<char>>>,
    pub starting_role: RoleOfInterest,
    pub actions: Seq<WorkFlowActionModel>,
}

pub open spec fn opt_strings_view(o: Option<Vec<String>>) -> Option<Seq<Seq<char>>> {
    match o {
        Some(v) => Some(strings_view(v@)),
        None => None,
    }
}

impl View for WorkFlow {
    type V = WorkFlowModel;

    open spec fn view(&self) -> WorkFlowModel {
        WorkFlowModel {
            display: self.display@,
            key: self.key@,
            valid_app_ids: opt_strings_view(self.valid_app_ids),
            starting_role: self.starting_role,
            actions: actions_view(self.actions@),
        }
    }
}

impl Clone for WorkFlow {
    fn clone(&self) -> (r: Self)
        ensures
            r@ == self@,
    {
        WorkFlow {
            display: self.display.clone(),
            key: self.key.clone(),
            valid_app_ids: match &self.valid_app_ids {
                Some(ids) => Some(clone_strings(ids)),
                None => None,
            },
            starting_role: self.starting_role,
            actions: clone_actions(&self.actions),
        }
    }
}

pub open spec fn workflows_view(v: Seq<WorkFlow>) -> Seq<WorkFlowModel> {
    v.map_values(|w: WorkFlow| w@)
}

pub fn clone_workflows(v: &Vec<WorkFlow>) -> (r: Vec<WorkFlow>)
    ensures
        workflows_view(r@) == workflows_view(v@),
{
    let mut r: Vec<WorkFlow> = Vec::new();
    let mut i: usize = 0;
    while i < v.len()
        invariant
            i <= v@.len(),
            workflows_view(r@) == workflows_view(v@.take(i as int)),
        decreases v@.len() - i,
    {
        r.push(v[i].clone());
        assert(workflows_view(v@.take(i + 1)) =~= workflows_view(v@.take(i as int)).push(
            v@[i as int]@,
        ));
        i = i + 1;
    }
    assert(v@.take(i as int) =~= v@);
    r
}

/// Everything the configuration file sets, but the theme.
#[derive(Debug)]
pub struct GlyphlowConfig {
    pub global_trigger_key: KeyBinding,
    pub editor: Option<CommandAction>,
    pub text_actions: Vec<CommandAction>,
    pub workflows: Vec<WorkFlow>,
    /// Bit pattern of the `f64` scroll distance.
    pub scroll_distance_bits: u64,
    pub hide_scrolling_menu: bool,
    pub hide_covered_elements: bool,
    pub element_min_width: u16,
    pub element_min_height: u16,
    pub image_min_size: u16,
    pub colored_frame_min_size: u16,
    pub ocr_languages: Vec<String>,
    pub dictionaries: Vec<String>,
    pub visibility_checking_level: VisibilityCheckingLevel,
    pub electron_initial_wait_ms: u64,
    pub hint_keys: HintKeys,
}

pub fn default_starting_role() -> (r: RoleOfInterest)
    ensures
        r == RoleOfInterest::Generic,
{
    RoleOfInterest::Generic
}

pub fn default_hint_margin() -> (r: u8)
    ensures
        r == 3,
{
    3
}

pub fn default_menu_margin() -> (r: u8)
    ensures
        r == 10,
{
    10
}

pub fn default_enable_animation() -> (r: bool)
    ensures
        r,
{
    true
}

pub fn default_global_keybinding() -> (r: KeyBinding)
    ensures
        r@ == seq![Key::AltLeft, Key::KeyG],
{
    let mut keys: Vec<Key> = Vec::new();
    keys.push(Key::AltLeft);
    keys.push(Key::KeyG);
    assert(keys@ =~= seq![Key::AltLeft, Key::KeyG]);
    KeyBinding { keys }
}

pub fn default_text_actions() -> (r: Vec<CommandAction>)
    ensures
        r@.len() == 0,
{
    Vec::new()
}

/// Bit pattern of the default scroll distance, `0.05`.
pub fn default_scroll_distance_bits() -> (r: u64)
    ensures
        r == 0x3fa999999999999a,
{
    0x3fa999999999999a
}

pub fn default_hide_scrolling_menu() -> (r: bool)
    ensures
        !r,
{
    false
}

pub fn default_hide_covered_elements() -> (r: bool)
    ensures
        r,
{
    true
}

pub fn default_element_min_width() -> (r: u16)
    ensures
        r == 15,
{
    15
}

pub fn default_element_min_height() -> (r: u16)
    ensures
        r == 15,
{
    15
}

pub fn default_frame_min_size() -> (r: u16)
    ensures
        r == 200,
{
    200
}

pub fn default_image_min_size() -> (r: u16)
    ensures
        r == 20,
{
    20
}

pub fn default_ocr_languages() -> (r: Vec<String>)
    ensures
        strings_view(r@) == seq!["en-US"@],
{
    let mut v: Vec<String> = Vec::new();
    v.push(String::from_str("en-US"));
    assert(strings_view(v@) =~= seq!["en-US"@]);
    v
}

pub fn default_dictionaries() -> (r: Vec<String>)
    ensures
        strings_view(r@) == seq!["New Oxford American Dictionary"@],
{
    let mut v: Vec<String> = Vec::new();
    v.push(String::from_str("New Oxford American Dictionary"));
    assert(strings_view(v@) =~= seq!["New Oxford American Dictionary"@]);
    v
}

pub fn default_vis_level() -> (r: VisibilityCheckingLevel)
    ensures
        r == VisibilityCheckingLevel::Loose,
{
    VisibilityCheckingLevel::Loose
}

pub fn default_wait_ms() -> (r: u64)
    ensures
        r == 100,
{
    100
}

pub fn default_hint_keys() -> (r: HintKeys)
    ensures
        r@ == default_alphabet(),
{
    HintKeys::default()
}

/// A menu-item search that presses the item whose title matches.
pub open spec fn press_menu_item(title: Seq<char>) -> Seq<WorkFlowActionModel> {
    seq![
        WorkFlowActionModel::ShowMenu,
        WorkFlowActionModel::Sleep(150),
        WorkFlowActionModel::SearchFor(target_with("MenuItem"@, Some(title))),
        WorkFlowActionModel::Press,
    ]
}

pub open spec fn workflow_model(
    key: Seq<char>,
    display: Seq<char>,
    starting_role: RoleOfInterest,
    actions: Seq<WorkFlowActionModel>,
) -> WorkFlowModel {
    WorkFlowModel { display, key, valid_app_ids: None, starting_role, actions }
}

/// The workflows shipped in a fresh configuration.
pub open spec fn default_workflows_spec() -> Seq<WorkFlowModel> {
    seq![
        workflow_model(
            "R"@,
            "\u{eab2} ProofRead"@,
            RoleOfInterest::TextField,
            seq![WorkFlowActionModel::Focus, WorkFlowActionModel::SelectAll] + press_menu_item(
                "Proofread"@,
            ),
        ),
        workflow_model(
            "C"@,
            "\u{2bba} Copy"@,
            RoleOfInterest::Image,
            press_menu_item("Copy Image$"@),
        ),
        workflow_model(
            "L"@,
            "\u{eb15} Copy Link"@,
            RoleOfInterest::Image,
            press_menu_item("Copy Image Address"@),
        ),
        workflow_model(
            "["@,
            "\u{f0cfd} Press [Left Click]"@,
            RoleOfInterest::Generic,
            seq![WorkFlowActionModel::Press],
        ),
        workflow_model(
            "]"@,
            "\u{eb94} Menu [Right Click]"@,
            RoleOfInterest::Generic,
            press_menu_item(".+"@),
        ),
    ]
}

fn push_press_menu_item(actions: &mut Vec<WorkFlowAction>, title: &str)
    ensures
        actions_view(final(actions)@) == actions_view(old(actions)@) + press_menu_item(title@),
{
    let ghost before = actions_view(actions@);
    actions.push(WorkFlowAction::ShowMenu);
    actions.push(WorkFlowAction::Sleep(150));
    let mut target = CustomTarget::default();
    target.role = String::from_str("MenuItem");
    target.title = Some(String::from_str(title));
    actions.push(WorkFlowAction::SearchFor(target));
    actions.push(WorkFlowAction::Press);
    assert(actions_view(actions@) =~= before + press_menu_item(title@));
}

fn new_workflow(key: &str, display: &str, starting_role: RoleOfInterest, actions: Vec<
    WorkFlowAction,
>) -> (r: WorkFlow)
    ensures
        r@ == workflow_model(key@, display@, starting_role, actions_view(actions@)),
{
    WorkFlow {
        display: String::from_str(display),
        key: String::from_str(key),
        valid_app_ids: None,
        starting_role,
        actions,
    }
}

/// The workflows shipped in a fresh configuration: proof-reading a text
/// field, copying an image or its address, and pressing or right-clicking any
/// element.
pub fn default_workflows() -> (r: Vec<WorkFlow>)
    ensures
        workflows_view(r@) == default_workflows_spec(),
{
    let mut flows: Vec<WorkFlow> = Vec::new();

    let mut proofread: Vec<WorkFlowAction> = Vec::new();
    proofread.push(WorkFlowAction::Focus);
    proofread.push(WorkFlowAction::SelectAll);
    assert(actions_view(proofread@) =~= seq![
        WorkFlowActionModel::Focus,
        WorkFlowActionModel::SelectAll,
    ]);
    push_press_menu_item(&mut proofread, "Proofread");
    flows.push(new_workflow("R", "\u{eab2} ProofRead", RoleOfInterest::TextField, proofread));

    let mut copy: Vec<WorkFlowAction> = Vec::new();
    assert(actions_view(copy@) =~= Seq::<WorkFlowActionModel>::empty());
    push_press_menu_item(&mut copy, "Copy Image$");
    flows.push(new_workflow("C", "\u{2bba} Copy", RoleOfInterest::Image, copy));

    let mut copy_link: Vec<WorkFlowAction> = Vec::new();
    assert(actions_view(copy_link@) =~= Seq::<WorkFlowActionModel>::empty());
    push_press_menu_item(&mut copy_link, "Copy Image Address");
    flows.push(new_workflow("L", "\u{eb15} Copy Link", RoleOfInterest::Image, copy_link));

    let mut press: Vec<WorkFlowAction> = Vec::new();
    press.push(WorkFlowAction::Press);
    assert(actions_view(press@) =~= seq![WorkFlowActionModel::Press]);
    flows.push(
        new_workflow("[", "\u{f0cfd} Press [Left Click]", RoleOfInterest::Generic, press),
    );

    let mut menu: Vec<WorkFlowAction> = Vec::new();
    assert(actions_view(menu@) =~= Seq::<WorkFlowActionModel>::empty());
    push_press_menu_item(&mut menu, ".+");
    flows.push(new_workflow("]", "\u{eb94} Menu [Right Click]", RoleOfInterest::Generic, menu));

    assert(workflows_view(flows@) =~= default_workflows_spec());
    flows
}

/// Whether the editors of two configurations are bound to the same key.
pub open spec fn editor_compatible(a: Option<CommandAction>, b: Option<CommandAction>) -> bool {
    match (a, b) {
        (Some(e1), Some(e2)) => e1.key@ == e2.key@,
        (None, None) => true,
        _ => false,
    }
}

/// Whether two command lists bind the same keys, in order.
pub open spec fn commands_compatible(a: Seq<CommandAction>, b: Seq<CommandAction>) -> bool {
    a.len() == b.len() && forall|i: int| 0 <= i < a.len() ==> (#[trigger] a[i]).key@ == b[i].key@
}

/// Whether two workflow lists bind the same keys, in order.
pub open spec fn workflows_compatible(a: Seq<WorkFlow>, b: Seq<WorkFlow>) -> bool {
    a.len() == b.len() && forall|i: int| 0 <= i < a.len() ==> (#[trigger] a[i]).key@ == b[i].key@
}

/// Two configurations agree on every key binding the key listener was built
/// from, so one can replace the other without rebuilding it.
pub open spec fn reload_compatible(new: GlyphlowConfig, old: GlyphlowConfig) -> bool {
    &&& new.global_trigger_key@ == old.global_trigger_key@
    &&& editor_compatible(new.editor, old.editor)
    &&& commands_compatible(new.text_actions@, old.text_actions@)
    &&& workflows_compatible(new.workflows@, old.workflows@)
}

/// The settings `safe_reload` never touches.
pub open spec fn same_plain_settings(a: GlyphlowConfig, b: GlyphlowConfig) -> bool {
    &&& a.scroll_distance_bits == b.scroll_distance_bits
    &&& a.hide_scrolling_menu == b.hide_scrolling_menu
    &&& a.hide_covered_elements == b.hide_covered_elements
    &&& a.element_min_width == b.element_min_width
    &&& a.element_min_height == b.element_min_height
    &&& a.image_min_size == b.image_min_size
    &&& a.colored_frame_min_size == b.colored_frame_min_size
    &&& a.ocr_languages == b.ocr_languages
    &&& a.dictionaries == b.dictionaries
    &&& a.visibility_checking_level == b.visibility_checking_level
    &&& a.electron_initial_wait_ms == b.electron_initial_wait_ms
    &&& a.hint_keys == b.hint_keys
}

/// What `safe_reload` makes of `old`, the freshly loaded configuration, for
/// `running`, the one the key listener was built from: the running trigger
/// key; each other group of bindings kept where it binds the same keys, else
/// the running one; everything else as loaded.
pub open spec fn reloaded(running: GlyphlowConfig, old: GlyphlowConfig, new: GlyphlowConfig) -> bool {
    &&& new.global_trigger_key@ == running.global_trigger_key@
    &&& opt_command_view(new.editor) == (if editor_compatible(running.editor, old.editor) {
        opt_command_view(old.editor)
    } else {
        opt_command_view(running.editor)
    })
    &&& commands_view(new.text_actions@) == (if commands_compatible(
        running.text_actions@,
        old.text_actions@,
    ) {
        commands_view(old.text_actions@)
    } else {
        commands_view(running.text_actions@)
    })
    &&& workflows_view(new.workflows@) == (if workflows_compatible(
        running.workflows@,
        old.workflows@,
    ) {
        workflows_view(old.workflows@)
    } else {
        workflows_view(running.workflows@)
    })
    &&& same_plain_settings(new, old)
}

/// Editors with equal views are bound to the same key.
proof fn lemma_editor_view(x: Option<CommandAction>, a: Option<CommandAction>, b: Option<CommandAction>)
    requires
        opt_command_view(a) == opt_command_view(b),
    ensures
        editor_compatible(x, a) == editor_compatible(x, b),
{
    match (a, b) {
        (Some(p), Some(q)) => {
            assert(p@.key == q@.key);
        },
        _ => {},
    }
}

proof fn lemma_commands_view(x: Seq<CommandAction>, a: Seq<CommandAction>, b: Seq<CommandAction>)
    requires
        commands_view(a) == commands_view(b),
    ensures
        commands_compatible(x, a) == commands_compatible(x, b),
{
    assert(a.len() == commands_view(a).len());
    assert(b.len() == commands_view(b).len());
    assert forall|i: int| 0 <= i < a.len() implies a[i].key@ == b[i].key@ by {
        assert(commands_view(a)[i] == a[i]@);
        assert(commands_view(b)[i] == b[i]@);
    }
}

proof fn lemma_workflows_view(x: Seq<WorkFlow>, a: Seq<WorkFlow>, b: Seq<WorkFlow>)
    requires
        workflows_view(a) == workflows_view(b),
    ensures
        workflows_compatible(x, a) == workflows_compatible(x, b),
{
    assert(a.len() == workflows_view(a).len());
    assert(b.len() == workflows_view(b).len());
    assert forall|i: int| 0 <= i < a.len() implies a[i].key@ == b[i].key@ by {
        assert(workflows_view(a)[i] == a[i]@);
        assert(workflows_view(b)[i] == b[i]@);
    }
}

/// After a reload the running configuration and the reloaded one bind the
/// same keys, so reloading again puts nothing back.
pub proof fn law_reload_settles(running: GlyphlowConfig, old: GlyphlowConfig, new: GlyphlowConfig)
    requires
        reloaded(running, old, new),
    ensures
        reload_compatible(running, new),
{
    if editor_compatible(running.editor, old.editor) {
        lemma_editor_view(running.editor, new.editor, old.editor);
    } else {
        lemma_editor_view(running.editor, new.editor, running.editor);
    }
    if commands_compatible(running.text_actions@, old.text_actions@) {
        lemma_commands_view(running.text_actions@, new.text_actions@, old.text_actions@);
    } else {
        lemma_commands_view(running.text_actions@, new.text_actions@, running.text_actions@);
    }
    if workflows_compatible(running.workflows@, old.workflows@) {
        lemma_workflows_view(running.workflows@, new.workflows@, old.workflows@);
    } else {
        lemma_workflows_view(running.workflows@, new.workflows@, running.workflows@);
    }
}

/// Whether two optional editors are bound alike: both absent, or both present
/// with the same key.
pub open spec fn same_editor_key(a: Option<CommandAction>, b: Option<CommandAction>) -> bool {
    match (a, b) {
        (Some(x), Some(y)) => x.key@ == y.key@,
        (None, None) => true,
        _ => false,
    }
}

/// After a reload every binding the key listener reads is the running one's:
/// the trigger key, the editor's key (or no editor), and the keys of the text
/// actions and of the workflows, one by one.
pub proof fn law_reload_restores_bindings(running: GlyphlowConfig, old: GlyphlowConfig, new: GlyphlowConfig)
    requires
        reloaded(running, old, new),
    ensures
        new.global_trigger_key@ == running.global_trigger_key@,
        same_editor_key(new.editor, running.editor),
        new.text_actions@.len() == running.text_actions@.len(),
        forall|i: int|
            0 <= i < new.text_actions@.len() ==> (#[trigger] new.text_actions@[i]).key@
                == running.text_actions@[i].key@,
        new.workflows@.len() == running.workflows@.len(),
        forall|i: int|
            0 <= i < new.workflows@.len() ==> (#[trigger] new.workflows@[i]).key@
                == running.workflows@[i].key@,
{
    law_reload_settles(running, old, new);
}

/// A reload is reported as compatible exactly when the loaded configuration
/// binds every key as the running one does: the same trigger key, editors
/// alike, and text actions and workflows of the same number with the same
/// keys in order.
pub proof fn law_reload_compatible_iff_same_keys(running: GlyphlowConfig, loaded: GlyphlowConfig)
    ensures
        reload_compatible(running, loaded) <==> {
            &&& running.global_trigger_key@ == loaded.global_trigger_key@
            &&& same_editor_key(running.editor, loaded.editor)
            &&& running.text_actions@.len() == loaded.text_actions@.len()
            &&& (forall|i: int|
                0 <= i < running.text_actions@.len() ==> (#[trigger] running.text_actions@[i]).key@
                    == loaded.text_actions@[i].key@)
            &&& running.workflows@.len() == loaded.workflows@.len()
            &&& (forall|i: int|
                0 <= i < running.workflows@.len() ==> (#[trigger] running.workflows@[i]).key@
                    == loaded.workflows@[i].key@)
        },
{
}

impl GlyphlowConfig {
    /// Prepares `other`, a freshly loaded configuration, to replace `self`
    /// while the key listener built from `self` keeps running: every key
    /// binding that differs is put back to `self`'s, and the result says
    /// whether nothing had to be put back.
    pub fn safe_reload(&self, other: &mut GlyphlowConfig) -> (compatible: bool)
        ensures
            compatible == reload_compatible(*self, *old(other)),
            reloaded(*self, *old(other), *final(other)),
    {
        let mut compatible = true;

        if !keys_equal(&self.global_trigger_key.keys, &other.global_trigger_key.keys) {
            compatible = false;
            other.global_trigger_key = self.global_trigger_key.clone();
        }
        let editor_same = match (&self.editor, &other.editor) {
            (Some(e1), Some(e2)) => e1.key == e2.key,
            (None, None) => true,
            _ => false,
        };
        if !editor_same {
            compatible = false;
            other.editor = clone_opt_command(&self.editor);
        }
        let mut actions_same = self.text_actions.len() == other.text_actions.len();
        let mut i: usize = 0;
        while actions_same && i < self.text_actions.len()
            invariant
                actions_same ==> self.text_actions@.len() == other.text_actions@.len(),
                i <= self.text_actions@.len(),
                actions_same ==> forall|j: int|
                    0 <= j < i ==> (#[trigger] self.text_actions@[j]).key@
                        == other.text_actions@[j].key@,
                !actions_same ==> !commands_compatible(self.text_actions@, other.text_actions@),
            decreases self.text_actions@.len() - i,
        {
            if self.text_actions[i].key != other.text_actions[i].key {
                actions_same = false;
            }
            i = i + 1;
        }
        if !actions_same {
            compatible = false;
            other.text_actions = clone_commands(&self.text_actions);
        }
        let mut flows_same = self.workflows.len() == other.workflows.len();
        let mut k: usize = 0;
        while flows_same && k < self.workflows.len()
            invariant
                flows_same ==> self.workflows@.len() == other.workflows@.len(),
                k <= self.workflows@.len(),
                flows_same ==> forall|j: int|
                    0 <= j < k ==> (#[trigger] self.workflows@[j]).key@ == other.workflows@[j].key@,
                !flows_same ==> !workflows_compatible(self.workflows@, other.workflows@),
            decreases self.workflows@.len() - k,
        {
            if self.workflows[k].key != other.workflows[k].key {
                flows_same = false;
            }
            k = k + 1;
        }
        if !flows_same {
            compatible = false;
            other.workflows = clone_workflows(&self.workflows);
        }
        compatible
    }
}

impl Default for GlyphlowConfig {
    fn default() -> (r: Self)
        ensures
            r.global_trigger_key@ == seq![Key::AltLeft, Key::KeyG],
            r.editor is None,
            r.text_actions@.len() == 0,
            workflows_view(r.workflows@) == default_workflows_spec(),
            r.scroll_distance_bits == 0x3fa999999999999a,
            !r.hide_scrolling_menu,
            r.hide_covered_elements,
            r.element_min_width == 15,
            r.element_min_height == 15,
            r.image_min_size == 20,
            r.colored_frame_min_size == 200,
            strings_view(r.ocr_languages@) == seq!["en-US"@],
            strings_view(r.dictionaries@) == seq!["New Oxford American Dictionary"@],
            r.visibility_checking_level == VisibilityCheckingLevel::Loose,
            r.electron_initial_wait_ms == 100,
            r.hint_keys@ == default_alphabet(),
    {
        GlyphlowConfig {
            global_trigger_key: default_global_keybinding(),
            editor: None,
            text_actions: default_text_actions(),
            workflows: default_workflows(),
            scroll_distance_bits: default_scroll_distance_bits(),
            hide_scrolling_menu: default_hide_scrolling_menu(),
            hide_covered_elements: default_hide_covered_elements(),
            element_min_width: default_element_min_width(),
            element_min_height: default_element_min_height(),
            image_min_size: default_image_min_size(),
            colored_frame_min_size: default_frame_min_size(),
            ocr_languages: default_ocr_languages(),
            dictionaries: default_dictionaries(),
            visibility_checking_level: default_vis_level(),
            electron_initial_wait_ms: default_wait_ms(),
            hint_keys: default_hint_keys(),
        }
    }
}

} // verus!
