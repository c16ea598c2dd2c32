//! What an element search looks for, and the rules that classify the
//! accessibility roles and texts it meets.

use vstd::prelude::*;
use crate::config::{CustomTarget, CustomTargetModel, RoleOfInterest};
use crate::std_text::chars_of;
use crate::text::{
    is_ascii_punct, is_ascii_punctuation, is_unicode_whitespace, is_whitespace, to_lowercase,
    trim_spec, trim_whitespace, unicode_lower,
};
use crate::keys::{split_char, split_on};
pub use crate::element::CompiledTarget;
pub use crate::element_cache::ElementCache;

verus! {

/// Which elements an activation labels.
#[derive(Debug, PartialEq)]
pub enum Target {
    Clickable,
    Image,
    ImageOCR,
    Editable,
    Edit,
    Text,
    ChildElement,
    Scrollable,
    Custom(Box<CustomTarget>),
}

pub enum TargetModel {
    Clickable,
    Image,
    ImageOCR,
    Editable,
    Edit,
    Text,
    ChildElement,
    Scrollable,
    Custom(CustomTargetModel),
}

impl View for Target {
    type V = TargetModel;

    open spec fn view(&self) -> TargetModel {
        match self {
            Target::Clickable => TargetModel::Clickable,
            Target::Image => TargetModel::Image,
            Target::ImageOCR => TargetModel::ImageOCR,
            Target::Editable => TargetModel::Editable,
            Target::Edit => TargetModel::Edit,
            Target::Text => TargetModel::Text,
            Target::ChildElement => TargetModel::ChildElement,
            Target::Scrollable => TargetModel::Scrollable,
            Target::Custom(ct) => TargetModel::Custom((**ct)@),
        }
    }
}

impl Clone for Target {
    fn clone(&self) -> (r: Self)
        ensures
            r@ == self@,
    {
        match self {
            Target::Clickable => Target::Clickable,
            Target::Image => Target::Image,
            Target::ImageOCR => Target::ImageOCR,
            Target::Editable => Target::Editable,
            Target::Edit => Target::Edit,
            Target::Text => Target::Text,
            Target::ChildElement => Target::ChildElement,
            Target::Scrollable => Target::Scrollable,
            Target::Custom(ct) => Target::Custom(Box::new((**ct).clone())),
        }
    }
}

impl Default for Target {
    fn default() -> (r: Self)
        ensures
            r@ == TargetModel::Clickable,
    {
        Target::Clickable
    }
}

/// The kinds of element a client can ask the server to label.
#[derive(Debug, PartialEq, Eq, Clone, Copy, Structural)]
pub enum ActivationKind {
    Clickable,
    Text,
    Image,
    Ocr,
    Input,
    Editor,
    ChildElement,
    Scrollable,
}

impl ActivationKind {
    /// The search target for the kind.
    pub fn to_target(self) -> (r: Target)
        ensures
            r@ == match self {
                ActivationKind::Clickable => TargetModel::Clickable,
                ActivationKind::Text => TargetModel::Text,
                ActivationKind::Image => TargetModel::Image,
                ActivationKind::Ocr => TargetModel::ImageOCR,
                ActivationKind::Input => TargetModel::Editable,
                ActivationKind::Editor => TargetModel::Edit,
                ActivationKind::ChildElement => TargetModel::ChildElement,
                ActivationKind::Scrollable => TargetModel::Scrollable,
            },
    {
        match self {
            ActivationKind::Clickable => Target::Clickable,
            ActivationKind::Text => Target::Text,
            ActivationKind::Image => Target::Image,
            ActivationKind::Ocr => Target::ImageOCR,
            ActivationKind::Input => Target::Editable,
            ActivationKind::Editor => Target::Edit,
            ActivationKind::ChildElement => Target::ChildElement,
            ActivationKind::Scrollable => Target::Scrollable,
        }
    }

    /// The kind's name on the command line.
    pub fn name(self) -> (r: &'static str)
        ensures
            r@ == match self {
                ActivationKind::Clickable => "clickable"@,
                ActivationKind::Text => "text"@,
                ActivationKind::Image => "image"@,
                ActivationKind::Ocr => "ocr"@,
                ActivationKind::Input => "input"@,
                ActivationKind::Editor => "editor"@,
                ActivationKind::ChildElement => "child-element"@,
                ActivationKind::Scrollable => "scrollable"@,
            },
    {
        match self {
            ActivationKind::Clickable => "clickable",
            ActivationKind::Text => "text",
            ActivationKind::Image => "image",
            ActivationKind::Ocr => "ocr",
            ActivationKind::Input => "input",
            ActivationKind::Editor => "editor",
            ActivationKind::ChildElement => "child-element",
            ActivationKind::Scrollable => "scrollable",
        }
    }
}

/// Our role for an accessibility role name.
pub open spec fn role_of(ax_role: Seq<char>) -> RoleOfInterest {
    if ax_role == "AXImage"@ {
        RoleOfInterest::Image
    } else if ax_role == "AXTextField"@ || ax_role == "AXTextArea"@ || ax_role == "AXComboBox"@ {
        RoleOfInterest::TextField
    } else if ax_role == "AXMenuItem"@ {
        RoleOfInterest::MenuItem
    } else if ax_role == "AXPopUpButton"@ || ax_role == "AXButton"@ || ax_role == "AXRadioButton"@ {
        RoleOfInterest::Button
    } else if ax_role == "AXCheckBox"@ {
        RoleOfInterest::CheckBox
    } else if ax_role == "AXStaticText"@ || ax_role == "AXHeading"@ {
        RoleOfInterest::StaticText
    } else if ax_role == "AXScrollBar"@ {
        RoleOfInterest::ScrollBar
    } else {
        RoleOfInterest::Generic
    }
}

fn is(role: &String, name: &str) -> (r: bool)
    ensures
        r == (role@ == name@),
{
    *role == String::from_str(name)
}

/// Maps an accessibility role name to the role the rest of the app works with;
/// anything unrecognised is `Generic`.
pub fn role_to_interest(role: &str) -> (r: RoleOfInterest)
    ensures
        r == role_of(role@),
{
    let role = String::from_str(role);
    if is(&role, "AXImage") {
        RoleOfInterest::Image
    } else if is(&role, "AXTextField") || is(&role, "AXTextArea") || is(&role, "AXComboBox") {
        RoleOfInterest::TextField
    } else if is(&role, "AXMenuItem") {
        RoleOfInterest::MenuItem
    } else if is(&role, "AXPopUpButton") || is(&role, "AXButton") || is(&role, "AXRadioButton") {
        RoleOfInterest::Button
    } else if is(&role, "AXCheckBox") {
        RoleOfInterest::CheckBox
    } else if is(&role, "AXStaticText") || is(&role, "AXHeading") {
        RoleOfInterest::StaticText
    } else if is(&role, "AXScrollBar") {
        RoleOfInterest::ScrollBar
    } else {
        RoleOfInterest::Generic
    }
}

/// Whether `needle` occurs in `hay` as a contiguous run.
pub open spec fn seq_contains(hay: Seq<char>, needle: Seq<char>) -> bool {
    exists|i: int| 0 <= i <= hay.len() - needle.len() && #[trigger] hay.subrange(i, i + needle.len())
        == needle
}

fn occurs_at(hay: &Vec<char>, needle: &Vec<char>, at: usize) -> (r: bool)
    requires
        at + needle@.len() <= hay@.len(),
    ensures
        r == (hay@.subrange(at as int, at + needle@.len()) == needle@),
{
    assert(hay@.len() == hay.len());
    let mut j: usize = 0;
    while j < needle.len()
        invariant
            at + needle@.len() <= hay@.len(),
            hay@.len() <= usize::MAX,
            j <= needle@.len(),
            forall|k: int| 0 <= k < j ==> hay@[at + k] == needle@[k],
        decreases needle@.len() - j,
    {
        if hay[at + j] != needle[j] {
            assert(hay@.subrange(at as int, at + needle@.len())[j as int] != needle@[j as int]);
            return false;
        }
        j = j + 1;
    }
    assert(hay@.subrange(at as int, at + needle@.len()) =~= needle@);
    true
}

/// Whether `needle` occurs in `hay`, as `str::contains` tests it.
pub fn contains_str(hay: &str, needle: &str) -> (r: bool)
    ensures
        r == seq_contains(hay@, needle@),
{
    let h = chars_of(hay);
    let n = chars_of(needle);
    if n.len() > h.len() {
        return false;
    }
    let last = h.len() - n.len();
    let mut i: usize = 0;
    loop
        invariant
            h@ == hay@,
            n@ == needle@,
            n@.len() <= h@.len(),
            last == h@.len() - n@.len(),
            i <= last,
            forall|k: int| 0 <= k < i ==> #[trigger] hay@.subrange(k, k + needle@.len()) != needle@,
        decreases last - i,
    {
        if occurs_at(&h, &n, i) {
            return true;
        }
        if i == last {
            return false;
        }
        i = i + 1;
    }
}

/// Whether some `|`-separated alternative of `pattern`, trimmed, occurs in
/// `value`, both lower-cased first.
pub open spec fn matches_pattern(pattern: Seq<char>, value: Seq<char>) -> bool {
    let alternatives = split_on(unicode_lower(pattern), '|');
    exists|i: int|
        0 <= i < alternatives.len() && seq_contains(
            unicode_lower(value),
            trim_spec(#[trigger] alternatives[i]),
        )
}

/// Case-insensitive substring test with `|` separating alternatives; an empty
/// alternative is found in everything.
pub fn match_helper(pattern: &str, value: &str) -> (r: bool)
    ensures
        r == matches_pattern(pattern@, value@),
{
    let lowered = to_lowercase(value);
    let lowered_pattern = to_lowercase(pattern);
    let alternatives = split_char(lowered_pattern.as_str(), '|');
    let ghost views = alternatives@.map_values(|p: String| p@);
    let mut i: usize = 0;
    while i < alternatives.len()
        invariant
            views == alternatives@.map_values(|p: String| p@),
            views == split_on(unicode_lower(pattern@), '|'),
            lowered@ == unicode_lower(value@),
            i <= alternatives@.len(),
            forall|k: int| 0 <= k < i ==> !seq_contains(lowered@, trim_spec(#[trigger] views[k])),
        decreases alternatives@.len() - i,
    {
        let t = trim_whitespace(alternatives[i].as_str());
        if contains_str(lowered.as_str(), t.as_str()) {
            assert(views[i as int] == alternatives@[i as int]@);
            assert(seq_contains(unicode_lower(value@), trim_spec(views[i as int])));
            return true;
        }
        i = i + 1;
    }
    false
}

/// Text that carries nothing worth labelling: empty, or only ASCII
/// punctuation and whitespace.
pub open spec fn is_meaningless_text(ctx: Seq<char>) -> bool {
    forall|i: int| 0 <= i < ctx.len() ==> is_ascii_punct(#[trigger] ctx[i]) || is_unicode_whitespace(
        ctx[i],
    )
}

/// Whether a found text is empty or only punctuation and whitespace, in which
/// case the element is skipped.
pub fn is_meaningless_context(ctx: &str) -> (r: bool)
    ensures
        r == is_meaningless_text(ctx@),
{
    let v = chars_of(ctx);
    let mut i: usize = 0;
    while i < v.len()
        invariant
            v@ == ctx@,
            i <= v@.len(),
            forall|k: int| 0 <= k < i ==> is_ascii_punct(#[trigger] ctx@[k]) || is_unicode_whitespace(
                ctx@[k],
            ),
        decreases v@.len() - i,
    {
        if !(is_ascii_punctuation(v[i]) || is_whitespace(v[i])) {
            return false;
        }
        i = i + 1;
    }
    true
}

} // verus!
