//! What a workflow's custom target asks of an element, checked against the
//! attributes read from that element.

use vstd::prelude::*;
use crate::ax_element::{Target, TargetModel, match_helper, matches_pattern, role_of, role_to_interest};
use crate::config::{CustomTarget, RoleOfInterest, opt_string_view};
use crate::pattern::{Pattern, PatternError, regex_accepts, regex_finds};
use crate::util::{folded, lower_ascii};

verus! {

/// The attributes of an accessibility element that a search reads; `None`
/// where the element does not have one.
pub struct ElementAttributes {
    pub subrole: Option<String>,
    pub title: Option<String>,
    pub label: Option<String>,
    pub description: Option<String>,
    /// The value, where it is a string.
    pub value: Option<String>,
    pub action_names: Option<Vec<String>>,
}

/// A custom target with its text constraints compiled into patterns, built
/// once per search and reused for every element it visits.
pub struct CompiledTarget {
    pub role: String,
    pub subrole: Option<String>,
    pub label: Option<Pattern>,
    pub value: Option<Pattern>,
    pub title: Option<Pattern>,
    pub description: Option<Pattern>,
    /// Bit patterns of the `f64` width and height.
    pub size: Option<(u64, u64)>,
    pub action: Option<String>,
}

pub open spec fn opt_pattern_view(p: Option<Pattern>) -> Option<Seq<char>> {
    match p {
        Some(p) => Some(p@),
        None => None,
    }
}

pub open spec fn compiles(p: Option<Seq<char>>) -> bool {
    match p {
        Some(s) => regex_accepts(s),
        None => true,
    }
}

/// The first of `label`, `value`, `title` and `description`, in that order,
/// whose pattern does not compile.
pub open spec fn first_bad_pattern(t: CustomTarget) -> Option<Seq<char>> {
    let fields = seq![t@.label, t@.value, t@.title, t@.description];
    if !compiles(fields[0]) {
        fields[0]
    } else if !compiles(fields[1]) {
        fields[1]
    } else if !compiles(fields[2]) {
        fields[2]
    } else if !compiles(fields[3]) {
        fields[3]
    } else {
        None
    }
}

fn compile_opt(p: &Option<String>) -> (r: Result<Option<Pattern>, PatternError>)
    ensures
        r is Ok <==> compiles(opt_string_view(*p)),
        r matches Ok(c) ==> opt_pattern_view(c) == opt_string_view(*p),
        r matches Err(e) ==> Some(e.pattern@) == opt_string_view(*p),
{
    match p {
        Some(s) => match Pattern::new(s.as_str()) {
            Ok(c) => Ok(Some(c)),
            Err(e) => Err(e),
        },
        None => Ok(None),
    }
}

fn clone_opt(o: &Option<String>) -> (r: Option<String>)
    ensures
        opt_string_view(r) == opt_string_view(*o),
{
    match o {
        Some(s) => Some(s.clone()),
        None => None,
    }
}

impl CompiledTarget {
    /// Compiles the pattern fields of `ct`; fails with the first of them,
    /// in field order, that does not compile.
    pub fn new(ct: &CustomTarget) -> (r: Result<CompiledTarget, PatternError>)
        ensures
            r is Ok <==> first_bad_pattern(*ct) is None,
            r matches Err(e) ==> first_bad_pattern(*ct) == Some(e.pattern@),
            r matches Ok(c) ==> {
                &&& c.role@ == ct.role@
                &&& opt_string_view(c.subrole) == opt_string_view(ct.subrole)
                &&& opt_pattern_view(c.label) == opt_string_view(ct.label)
                &&& opt_pattern_view(c.value) == opt_string_view(ct.value)
                &&& opt_pattern_view(c.title) == opt_string_view(ct.title)
                &&& opt_pattern_view(c.description) == opt_string_view(ct.description)
                &&& c.size == ct.size
                &&& opt_string_view(c.action) == opt_string_view(ct.action)
            },
    {
        let label = match compile_opt(&ct.label) {
            Ok(p) => p,
            Err(e) => return Err(e),
        };
        let value = match compile_opt(&ct.value) {
            Ok(p) => p,
            Err(e) => return Err(e),
        };
        let title = match compile_opt(&ct.title) {
            Ok(p) => p,
            Err(e) => return Err(e),
        };
        let description = match compile_opt(&ct.description) {
            Ok(p) => p,
            Err(e) => return Err(e),
        };
        Ok(CompiledTarget {
            role: ct.role.clone(),
            subrole: clone_opt(&ct.subrole),
            label,
            value,
            title,
            description,
            size: ct.size,
            action: clone_opt(&ct.action),
        })
    }
}

/// Whether an optional pattern is met: an unset one always is, a set one
/// needs the attribute, and a match in it.
pub open spec fn pattern_met(p: Option<Pattern>, attr: Option<String>) -> bool {
    match p {
        None => true,
        Some(re) => match attr {
            Some(a) => regex_finds(re@, a@),
            None => false,
        },
    }
}

/// Whether some of `names` matches `pattern` by case-insensitive alternatives.
pub open spec fn some_name_matches(pattern: Seq<char>, names: Seq<String>) -> bool {
    exists|i: int| 0 <= i < names.len() && matches_pattern(pattern, #[trigger] names[i]@)
}

/// Whether some action name meets the action constraint.
pub open spec fn action_met(action: Option<String>, names: Option<Vec<String>>) -> bool {
    match action {
        None => true,
        Some(a) => match names {
            Some(ns) => some_name_matches(a@, ns@),
            None => false,
        },
    }
}

/// Whether an element with `attrs` meets every constraint of `t` that is read
/// from the element's attributes: subrole and action names by case-insensitive
/// alternatives, the other texts by pattern.
pub open spec fn target_met(attrs: ElementAttributes, t: CompiledTarget) -> bool {
    &&& match t.subrole {
        None => true,
        Some(sr) => match attrs.subrole {
            Some(s) => matches_pattern(sr@, s@),
            None => false,
        },
    }
    &&& pattern_met(t.description, attrs.description)
    &&& pattern_met(t.title, attrs.title)
    &&& pattern_met(t.label, attrs.label)
    &&& pattern_met(t.value, attrs.value)
    &&& action_met(t.action, attrs.action_names)
}

fn check_pattern(p: &Option<Pattern>, attr: &Option<String>) -> (r: bool)
    ensures
        r == pattern_met(*p, *attr),
{
    match p {
        None => true,
        Some(re) => match attr {
            Some(a) => re.is_match(a.as_str()),
            None => false,
        },
    }
}

fn check_actions(action: &Option<String>, names: &Option<Vec<String>>) -> (r: bool)
    ensures
        r == action_met(*action, *names),
{
    match action {
        None => true,
        Some(a) => match names {
            Some(ns) => {
                let mut i: usize = 0;
                while i < ns.len()
                    invariant
                        *names == Some(*ns),
                        *action == Some(*a),
                        i <= ns@.len(),
                        forall|k: int| 0 <= k < i ==> !matches_pattern(a@, #[trigger] ns@[k]@),
                    decreases ns@.len() - i,
                {
                    if match_helper(a.as_str(), ns[i].as_str()) {
                        assert(matches_pattern(a@, ns@[i as int]@));
                        return true;
                    }
                    i = i + 1;
                }
                false
            },
            None => false,
        },
    }
}

/// `s` followed by a space, or nothing when unset.
pub open spec fn word_or_nothing(s: Option<String>) -> Seq<char> {
    match s {
        Some(t) => t@ + seq![' '],
        None => Seq::empty(),
    }
}

/// The text a search looks in: title, label and description, each followed
/// by a space, then the value.
pub open spec fn search_text_spec(a: ElementAttributes) -> Seq<char> {
    word_or_nothing(a.title) + word_or_nothing(a.label) + word_or_nothing(a.description) + match a.value {
        Some(v) => v@,
        None => Seq::empty(),
    }
}

fn push_word(out: &mut String, s: &Option<String>)
    ensures
        final(out)@ == old(out)@ + word_or_nothing(*s),
{
    if let Some(t) = s {
        out.append(t.as_str());
        out.push(' ');
    }
}

/// Whether `name` is one of `names`.
pub open spec fn has_name(names: Seq<String>, name: Seq<char>) -> bool {
    exists|i: int| 0 <= i < names.len() && #[trigger] names[i]@ == name
}

impl ElementAttributes {
    /// The text a search looks in.
    pub fn search_target(&self) -> (r: String)
        ensures
            r@ == search_text_spec(*self),
    {
        let mut msg = String::new();
        push_word(&mut msg, &self.title);
        push_word(&mut msg, &self.label);
        push_word(&mut msg, &self.description);
        if let Some(v) = &self.value {
            msg.append(v.as_str());
        }
        msg
    }

    /// The string value, or else the description.
    pub fn get_string_value_or_description(&self) -> (r: Option<String>)
        ensures
            opt_string_view(r) == match self.value {
                Some(v) => Some(v@),
                None => opt_string_view(self.description),
            },
    {
        match &self.value {
            Some(v) => Some(v.clone()),
            None => clone_opt(&self.description),
        }
    }

    /// Whether the element offers the press action.
    pub fn is_clickable(&self) -> (r: bool)
        ensures
            r == match self.action_names {
                Some(ns) => has_name(ns@, "AXPress"@),
                None => false,
            },
    {
        match &self.action_names {
            None => false,
            Some(ns) => {
                let press = String::from_str("AXPress");
                let mut i: usize = 0;
                while i < ns.len()
                    invariant
                        self.action_names == Some(*ns),
                        press@ == "AXPress"@,
                        i <= ns@.len(),
                        forall|k: int| 0 <= k < i ==> #[trigger] ns@[k]@ != "AXPress"@,
                    decreases ns@.len() - i,
                {
                    if ns[i] == press {
                        assert(ns@[i as int]@ == "AXPress"@);
                        assert(has_name(ns@, "AXPress"@));
                        return true;
                    }
                    i = i + 1;
                }
                false
            },
        }
    }

    /// Whether the element meets the attribute constraints of `target`.
    pub fn match_custom_target(&self, target: &CompiledTarget) -> (r: bool)
        ensures
            r == target_met(*self, *target),
    {
        let sub_ok = match &target.subrole {
            None => true,
            Some(sr) => match &self.subrole {
                Some(s) => match_helper(sr.as_str(), s.as_str()),
                None => false,
            },
        };
        sub_ok && check_pattern(&target.description, &self.description) && check_pattern(
            &target.title,
            &self.title,
        ) && check_pattern(&target.label, &self.label) && check_pattern(&target.value, &self.value)
            && check_actions(&target.action, &self.action_names)
    }
}

/// The folded text that a search query is matched against: the element's
/// own text where it has one, else its attributes' search text.
pub fn ascii_search_target(context: &Option<String>, attrs: &Option<ElementAttributes>) -> (r: String)
    ensures
        r@ == match context {
            Some(t) => folded(t@),
            None => match attrs {
                Some(a) => folded(search_text_spec(*a)),
                None => Seq::empty(),
            },
        },
{
    match context {
        Some(t) => lower_ascii(t.as_str()),
        None => match attrs {
            Some(a) => {
                let s = a.search_target();
                lower_ascii(s.as_str())
            },
            None => String::new(),
        },
    }
}

/// What else the search reads of an element beyond its attributes.
pub struct ElementFacts {
    pub attrs: ElementAttributes,
    pub has_children: bool,
    /// Whether some child is a cell.
    pub has_cell_child: bool,
}

/// What visiting an element during a search comes to.
#[derive(Debug)]
pub enum Visit {
    /// Report the element with this role and text.
    Found(RoleOfInterest, Option<String>),
    /// The element is window-like: narrow the window frame to it.
    NarrowWindow,
    Nothing,
}

pub enum VisitModel {
    Found(RoleOfInterest, Option<Seq<char>>),
    NarrowWindow,
    Nothing,
}

impl View for Visit {
    type V = VisitModel;

    open spec fn view(&self) -> VisitModel {
        match self {
            Visit::Found(r, c) => VisitModel::Found(*r, opt_string_view(*c)),
            Visit::NarrowWindow => VisitModel::NarrowWindow,
            Visit::Nothing => VisitModel::Nothing,
        }
    }
}

pub open spec fn first_of(a: Option<String>, b: Option<String>) -> Option<Seq<char>> {
    match a {
        Some(x) => Some(x@),
        None => opt_string_view(b),
    }
}

pub open spec fn value_or_description(a: ElementAttributes) -> Option<Seq<char>> {
    first_of(a.value, a.description)
}

pub open spec fn found(role: RoleOfInterest, context: Option<Seq<char>>) -> VisitModel {
    VisitModel::Found(role, context)
}

pub open spec fn found_with(role: RoleOfInterest, context: Option<Seq<char>>) -> VisitModel {
    match context {
        Some(c) => VisitModel::Found(role, Some(c)),
        None => VisitModel::Nothing,
    }
}

pub open spec fn clicks(f: ElementFacts) -> bool {
    match f.attrs.action_names {
        Some(ns) => has_name(ns@, "AXPress"@),
        None => false,
    }
}

/// What a search for `target` makes of an element with the accessibility
/// role `role`: by role, the role it is reported with and the text a search
/// matches it on, if it is reported at all.
pub open spec fn visit_spec(role: Seq<char>, target: TargetModel, f: ElementFacts, loosest: bool) -> VisitModel {
    let a = f.attrs;
    if role == "AXPopUpButton"@ || role == "AXButton"@ || role == "AXRadioButton"@ {
        match target {
            TargetModel::Clickable => found(RoleOfInterest::Button, None),
            TargetModel::Text => found_with(
                RoleOfInterest::Button,
                match first_of(a.label, a.title) {
                    Some(c) => Some(c),
                    None => opt_string_view(a.description),
                },
            ),
            _ => VisitModel::Nothing,
        }
    } else if role == "AXCell"@ {
        if target is Clickable { found(RoleOfInterest::Cell, None) } else { VisitModel::Nothing }
    } else if role == "AXRow"@ {
        if target is Clickable && !f.has_cell_child {
            found(RoleOfInterest::Cell, None)
        } else {
            VisitModel::Nothing
        }
    } else if role == "AXImage"@ {
        match target {
            TargetModel::Image | TargetModel::ImageOCR => found(RoleOfInterest::Image, None),
            TargetModel::Clickable => if clicks(f) {
                found(RoleOfInterest::Button, None)
            } else {
                VisitModel::Nothing
            },
            _ => VisitModel::Nothing,
        }
    } else if role == "AXLink"@ {
        match target {
            TargetModel::Text => if !f.has_children {
                found(RoleOfInterest::StaticText, first_of(a.title, a.description))
            } else {
                VisitModel::Nothing
            },
            TargetModel::Clickable => if clicks(f) {
                found(RoleOfInterest::StaticText, None)
            } else {
                VisitModel::Nothing
            },
            _ => VisitModel::Nothing,
        }
    } else if role == "AXStaticText"@ {
        match target {
            TargetModel::Clickable => if clicks(f) {
                found(RoleOfInterest::Button, None)
            } else {
                VisitModel::Nothing
            },
            TargetModel::Text => found_with(RoleOfInterest::StaticText, value_or_description(a)),
            _ => VisitModel::Nothing,
        }
    } else if (role == "AXWindow"@ || role == "AXScrollArea"@ || role == "AXWebArea"@) && !loosest {
        VisitModel::NarrowWindow
    } else if role == "AXComboBox"@ || role == "AXTextField"@ || role == "AXTextArea"@ {
        match target {
            TargetModel::Editable => found(RoleOfInterest::TextField, value_or_description(a)),
            TargetModel::Text => match value_or_description(a) {
                Some(v) => if v.len() > 0 {
                    found(RoleOfInterest::TextField, Some(v))
                } else {
                    VisitModel::Nothing
                },
                None => VisitModel::Nothing,
            },
            TargetModel::Clickable => found(RoleOfInterest::TextField, None),
            _ => VisitModel::Nothing,
        }
    } else if role == "AXCheckBox"@ {
        match target {
            TargetModel::Clickable => found(RoleOfInterest::CheckBox, None),
            TargetModel::Text => found_with(RoleOfInterest::CheckBox, opt_string_view(a.description)),
            _ => VisitModel::Nothing,
        }
    } else if role == "AXHeading"@ {
        if target is Text {
            found_with(RoleOfInterest::StaticText, first_of(a.description, a.label))
        } else {
            VisitModel::Nothing
        }
    } else if role == "AXGroup"@ {
        match target {
            TargetModel::Clickable => if clicks(f) {
                found(RoleOfInterest::Button, None)
            } else {
                VisitModel::Nothing
            },
            TargetModel::ImageOCR => if !f.has_children {
                found(RoleOfInterest::Image, None)
            } else {
                VisitModel::Nothing
            },
            _ => VisitModel::Nothing,
        }
    } else if role == "AXMenuItem"@ {
        match target {
            TargetModel::Text => found_with(RoleOfInterest::MenuItem, opt_string_view(a.title)),
            TargetModel::Clickable => found(RoleOfInterest::MenuItem, None),
            _ => VisitModel::Nothing,
        }
    } else if role == "AXScrollBar"@ {
        if target is Scrollable { found(RoleOfInterest::ScrollBar, None) } else { VisitModel::Nothing }
    } else if target is Clickable && clicks(f) {
        found(RoleOfInterest::Button, None)
    } else {
        VisitModel::Nothing
    }
}

fn either(a: &Option<String>, b: &Option<String>) -> (r: Option<String>)
    ensures
        opt_string_view(r) == first_of(*a, *b),
{
    match a {
        Some(s) => Some(s.clone()),
        None => clone_opt(b),
    }
}

fn found_if(role: RoleOfInterest, context: Option<String>) -> (r: Visit)
    ensures
        r@ == found_with(role, opt_string_view(context)),
{
    match context {
        Some(c) => Visit::Found(role, Some(c)),
        None => Visit::Nothing,
    }
}

fn role_is(role: &String, name: &str) -> (r: bool)
    ensures
        r == (role@ == name@),
{
    *role == String::from_str(name)
}

/// What a search for `target` makes of an element with the accessibility
/// role `role` and these facts; `loosest` when visibility is checked as
/// loosely as possible.
pub fn visit_element(role: &str, target: &Target, f: &ElementFacts, loosest: bool) -> (r: Visit)
    ensures
        r@ == visit_spec(role@, target@, *f, loosest),
{
    let role = String::from_str(role);
    let a = &f.attrs;
    let clickable = a.is_clickable();
    if role_is(&role, "AXPopUpButton") || role_is(&role, "AXButton") || role_is(&role, "AXRadioButton") {
        match target {
            Target::Clickable => Visit::Found(RoleOfInterest::Button, None),
            Target::Text => {
                let c = match either(&a.label, &a.title) {
                    Some(c) => Some(c),
                    None => clone_opt(&a.description),
                };
                found_if(RoleOfInterest::Button, c)
            },
            _ => Visit::Nothing,
        }
    } else if role_is(&role, "AXCell") {
        if matches!(target, Target::Clickable) {
            Visit::Found(RoleOfInterest::Cell, None)
        } else {
            Visit::Nothing
        }
    } else if role_is(&role, "AXRow") {
        if matches!(target, Target::Clickable) && !f.has_cell_child {
            Visit::Found(RoleOfInterest::Cell, None)
        } else {
            Visit::Nothing
        }
    } else if role_is(&role, "AXImage") {
        match target {
            Target::Image | Target::ImageOCR => Visit::Found(RoleOfInterest::Image, None),
            Target::Clickable => if clickable {
                Visit::Found(RoleOfInterest::Button, None)
            } else {
                Visit::Nothing
            },
            _ => Visit::Nothing,
        }
    } else if role_is(&role, "AXLink") {
        match target {
            Target::Text => if !f.has_children {
                Visit::Found(RoleOfInterest::StaticText, either(&a.title, &a.description))
            } else {
                Visit::Nothing
            },
            Target::Clickable => if clickable {
                Visit::Found(RoleOfInterest::StaticText, None)
            } else {
                Visit::Nothing
            },
            _ => Visit::Nothing,
        }
    } else if role_is(&role, "AXStaticText") {
        match target {
            Target::Clickable => if clickable {
                Visit::Found(RoleOfInterest::Button, None)
            } else {
                Visit::Nothing
            },
            Target::Text => found_if(RoleOfInterest::StaticText, either(&a.value, &a.description)),
            _ => Visit::Nothing,
        }
    } else if (role_is(&role, "AXWindow") || role_is(&role, "AXScrollArea") || role_is(&role, "AXWebArea"))
        && !loosest {
        Visit::NarrowWindow
    } else if role_is(&role, "AXComboBox") || role_is(&role, "AXTextField") || role_is(&role, "AXTextArea") {
        match target {
            Target::Editable => Visit::Found(RoleOfInterest::TextField, either(&a.value, &a.description)),
            Target::Text => match either(&a.value, &a.description) {
                Some(v) => if v.as_str().unicode_len() > 0 {
                    Visit::Found(RoleOfInterest::TextField, Some(v))
                } else {
                    Visit::Nothing
                },
                None => Visit::Nothing,
            },
            Target::Clickable => Visit::Found(RoleOfInterest::TextField, None),
            _ => Visit::Nothing,
        }
    } else if role_is(&role, "AXCheckBox") {
        match target {
            Target::Clickable => Visit::Found(RoleOfInterest::CheckBox, None),
            Target::Text => found_if(RoleOfInterest::CheckBox, clone_opt(&a.description)),
            _ => Visit::Nothing,
        }
    } else if role_is(&role, "AXHeading") {
        if matches!(target, Target::Text) {
            found_if(RoleOfInterest::StaticText, either(&a.description, &a.label))
        } else {
            Visit::Nothing
        }
    } else if role_is(&role, "AXGroup") {
        match target {
            Target::Clickable => if clickable {
                Visit::Found(RoleOfInterest::Button, None)
            } else {
                Visit::Nothing
            },
            Target::ImageOCR => if !f.has_children {
                Visit::Found(RoleOfInterest::Image, None)
            } else {
                Visit::Nothing
            },
            _ => Visit::Nothing,
        }
    } else if role_is(&role, "AXMenuItem") {
        match target {
            Target::Text => found_if(RoleOfInterest::MenuItem, clone_opt(&a.title)),
            Target::Clickable => Visit::Found(RoleOfInterest::MenuItem, None),
            _ => Visit::Nothing,
        }
    } else if role_is(&role, "AXScrollBar") {
        if matches!(target, Target::Scrollable) {
            Visit::Found(RoleOfInterest::ScrollBar, None)
        } else {
            Visit::Nothing
        }
    } else if matches!(target, Target::Clickable) && clickable {
        Visit::Found(RoleOfInterest::Button, None)
    } else {
        Visit::Nothing
    }
}

/// How the element explorer reports a child: by the role its accessibility
/// role stands for, with its text (empty where it has none) for text roles.
pub fn child_found(role: &str, attrs: &ElementAttributes) -> (r: (RoleOfInterest, Option<String>))
    ensures
        r.0 == role_of(role@),
        opt_string_view(r.1) == if r.0 == RoleOfInterest::TextField || r.0 == RoleOfInterest::StaticText {
            Some(match value_or_description(*attrs) {
                Some(v) => v,
                None => Seq::<char>::empty(),
            })
        } else {
            None
        },
{
    let roi = role_to_interest(role);
    let context = match roi {
        RoleOfInterest::TextField | RoleOfInterest::StaticText => Some(
            match attrs.get_string_value_or_description() {
                Some(v) => v,
                None => String::new(),
            },
        ),
        _ => None,
    };
    (roi, context)
}

/// A target that constrains nothing but its role matches every element; a
/// target that asks for an attribute the element lacks matches none.
pub proof fn law_target_attributes(attrs: ElementAttributes, t: CompiledTarget)
    ensures
        t.subrole is None && t.description is None && t.title is None && t.label is None
            && t.value is None && t.action is None ==> target_met(attrs, t),
        (t.subrole is Some && attrs.subrole is None) || (t.description is Some
            && attrs.description is None) || (t.title is Some && attrs.title is None) || (
        t.label is Some && attrs.label is None) || (t.value is Some && attrs.value is None) || (
        t.action is Some && attrs.action_names is None) ==> !target_met(attrs, t),
        (target_met(attrs, t) && t.title is Some) ==> (attrs.title is Some && regex_finds(
            t.title->0@,
            attrs.title->0@,
        )),
        (target_met(attrs, t) && t.label is Some) ==> (attrs.label is Some && regex_finds(
            t.label->0@,
            attrs.label->0@,
        )),
        (target_met(attrs, t) && t.value is Some) ==> (attrs.value is Some && regex_finds(
            t.value->0@,
            attrs.value->0@,
        )),
        (target_met(attrs, t) && t.description is Some) ==> (attrs.description is Some && regex_finds(
            t.description->0@,
            attrs.description->0@,
        )),
{
}

/// A search reports elements only with the role its target looks for: a
/// search for images reports images, one for inputs text fields, one for
/// scroll bars scroll bars; a search for text reports every element with its
/// text, links aside; searches for other targets report nothing; and the
/// window is narrowed only when visibility is not checked loosest.
pub proof fn law_visit_reports_by_target(role: Seq<char>, target: TargetModel, f: ElementFacts, loosest: bool)
    ensures
        target is Image ==> (visit_spec(role, target, f, loosest) matches VisitModel::Found(r, _) ==> r == RoleOfInterest::Image),
        target is Editable ==> (visit_spec(role, target, f, loosest) matches VisitModel::Found(r, _) ==> r == RoleOfInterest::TextField),
        target is Scrollable ==> (visit_spec(role, target, f, loosest) matches VisitModel::Found(r, _) ==> r == RoleOfInterest::ScrollBar),
        target is ImageOCR ==> (visit_spec(role, target, f, loosest) matches VisitModel::Found(r, _) ==> r == RoleOfInterest::Image),
        (target is Text && role != "AXLink"@) ==> (visit_spec(role, target, f, loosest) matches VisitModel::Found(_, c) ==> c is Some),
        (target is Edit || target is ChildElement || target is Custom) ==> !(visit_spec(role, target, f, loosest) is Found),
        visit_spec(role, target, f, loosest) is NarrowWindow ==> !loosest,
{
}

} // verus!
