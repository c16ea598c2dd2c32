//! Which elements found by a search are kept, and the de-duplication of
//! elements that share a centre (as DOM elements often do).

use vstd::prelude::*;
use std::collections::HashMap;
use crate::ax_element::{Target, TargetModel, is_meaningless_context, is_meaningless_text};
use crate::config::RoleOfInterest;

verus! {

broadcast use vstd::std_specs::hash::group_hash_axioms;

/// What the cache reads of a found element. The size tests compare the
/// element's frame with the configured minimums.
pub struct Candidate {
    /// The element's role; `None` for a pseudo element, which has no
    /// accessibility element behind it.
    pub role: Option<RoleOfInterest>,
    pub context: Option<String>,
    /// Whether the frame has no width or no height.
    pub zero_size: bool,
    /// Whether the frame's shorter side is under the image minimum.
    pub image_too_small: bool,
    /// Whether the frame is narrower or lower than the element minimum.
    pub too_small: bool,
    /// Bit patterns of the `f64` coordinates of the frame's centre.
    pub center: (u64, u64),
}

/// Whether an element with this role, text and size is worth a hint. Some
/// roles are always kept; custom targets unless they have no area; images and
/// text fields by size alone; others are dropped for meaningless text, then
/// for size.
pub open spec fn keeps(c: Candidate) -> bool {
    match c.role {
        None => false,
        Some(role) => match role {
            RoleOfInterest::Generic | RoleOfInterest::ScrollBar | RoleOfInterest::CheckBox => true,
            RoleOfInterest::Image => !c.image_too_small,
            RoleOfInterest::TextField => !c.too_small,
            _ => if role == RoleOfInterest::CustomTarget && !c.zero_size {
                true
            } else if c.context matches Some(t) && is_meaningless_text(t@) {
                false
            } else {
                !c.too_small
            },
        },
    }
}

/// Whether the element is worth a hint.
pub fn keeps_element(c: &Candidate) -> (r: bool)
    ensures
        r == keeps(*c),
{
    let role = match c.role {
        None => {
            return false;
        },
        Some(role) => role,
    };
    match role {
        RoleOfInterest::Generic | RoleOfInterest::ScrollBar | RoleOfInterest::CheckBox => true,
        RoleOfInterest::Image => !c.image_too_small,
        RoleOfInterest::TextField => !c.too_small,
        _ => {
            if role == RoleOfInterest::CustomTarget && !c.zero_size {
                return true;
            }
            if let Some(t) = &c.context {
                if is_meaningless_context(t.as_str()) {
                    return false;
                }
            }
            !c.too_small
        },
    }
}

/// What the cache keeps, role by role: pseudo elements never; generic
/// elements, scroll bars and check boxes always; images only from the image
/// minimum up; text fields, and elements of other roles without text, only
/// from the element minimum up; texts that are only punctuation and space
/// never, unless the element is a custom target with an area.
pub proof fn law_kept_elements(c: Candidate)
    ensures
        c.role is None ==> !keeps(c),
        c.role == Some(RoleOfInterest::Generic) || c.role == Some(RoleOfInterest::ScrollBar)
            || c.role == Some(RoleOfInterest::CheckBox) ==> keeps(c),
        c.role == Some(RoleOfInterest::Image) ==> (keeps(c) <==> !c.image_too_small),
        c.role == Some(RoleOfInterest::TextField) ==> (keeps(c) <==> !c.too_small),
        c.role == Some(RoleOfInterest::CustomTarget) && !c.zero_size ==> keeps(c),
        c.role matches Some(r) && r != RoleOfInterest::Generic && r != RoleOfInterest::ScrollBar
            && r != RoleOfInterest::CheckBox && r != RoleOfInterest::Image && r
            != RoleOfInterest::TextField && !(r == RoleOfInterest::CustomTarget && !c.zero_size)
            ==> (keeps(c) <==> (!c.too_small && !(c.context matches Some(t) && is_meaningless_text(
            t@)))),
{
}

/// A rejected element leaves the cache as it was; a kept one either replaces
/// the element already at its centre or is added at the end.
pub proof fn law_admission(m: ElementCacheModel, c: Candidate)
    ensures
        !keeps(c) ==> admit_spec(m, c) == (m, Admission::Rejected),
        keeps(c) && m.seen.contains_key(center_key(c.center)) ==> admit_spec(m, c).1
            == Admission::Replaces(m.seen[center_key(c.center)]) && admit_spec(m, c).0 == m,
        keeps(c) && !m.seen.contains_key(center_key(c.center)) ==> admit_spec(m, c).1
            == Admission::Added(m.len as usize) && admit_spec(m, c).0.len == m.len + 1
            && admit_spec(m, c).0.seen[center_key(c.center)] == m.len as usize,
{
}

/// The key under which a centre is remembered./// The key under which a centre is remembered.
pub open spec fn center_key(center: (u64, u64)) -> u128 {
    ((center.0 as int) * 0x1_0000_0000_0000_0000 + (center.1 as int)) as u128
}

/// What becomes of a found element.
#[derive(Debug, PartialEq, Eq, Clone, Copy, Structural)]
pub enum Admission {
    /// Not worth a hint.
    Rejected,
    /// Shares its centre with the element at this index, which it replaces.
    Replaces(usize),
    /// Added at this index.
    Added(usize),
}

/// The elements kept so far: how many, and which index each centre went to.
pub struct ElementCache {
    len: usize,
    seen_center: HashMap<u128, usize>,
}

pub struct ElementCacheModel {
    pub len: nat,
    pub seen: Map<u128, usize>,
}

impl View for ElementCache {
    type V = ElementCacheModel;

    closed spec fn view(&self) -> ElementCacheModel {
        ElementCacheModel { len: self.len as nat, seen: self.seen_center@ }
    }
}

/// What adding a candidate does to the cache, and what becomes of it.
pub open spec fn admit_spec(m: ElementCacheModel, c: Candidate) -> (ElementCacheModel, Admission) {
    let key = center_key(c.center);
    if !keeps(c) {
        (m, Admission::Rejected)
    } else if m.seen.contains_key(key) {
        (m, Admission::Replaces(m.seen[key]))
    } else {
        (
            ElementCacheModel { len: m.len + 1, seen: m.seen.insert(key, m.len as usize) },
            Admission::Added(m.len as usize),
        )
    }
}

/// What force-adding an element with this centre does.
pub open spec fn force_spec(m: ElementCacheModel, center: (u64, u64)) -> ElementCacheModel {
    ElementCacheModel { len: m.len + 1, seen: m.seen.insert(center_key(center), m.len as usize) }
}

impl ElementCache {
    /// Every remembered centre names a kept element.
    pub closed spec fn well_formed(&self) -> bool {
        forall|k: u128| #[trigger] self.seen_center@.contains_key(k) ==> self.seen_center@[k] < self.len
    }

    pub fn new() -> (r: Self)
        ensures
            r@.len == 0,
            r@.seen == Map::<u128, usize>::empty(),
            r.well_formed(),
    {
        ElementCache { len: 0, seen_center: HashMap::new() }
    }

    /// How many elements are kept.
    pub fn len(&self) -> (r: usize)
        ensures
            r == self@.len,
    {
        self.len
    }

    /// Forgets every element.
    pub fn clear(&mut self)
        ensures
            final(self)@.len == 0,
            final(self)@.seen == Map::<u128, usize>::empty(),
            final(self).well_formed(),
    {
        self.len = 0;
        self.seen_center = HashMap::new();
    }

    fn key(center: (u64, u64)) -> (r: u128)
        ensures
            r == center_key(center),
    {
        assert((center.0 as int) * 0x1_0000_0000_0000_0000 + (center.1 as int) <= u128::MAX) by (nonlinear_arith)
            requires
                center.0 <= u64::MAX,
                center.1 <= u64::MAX,
        ;
        (center.0 as u128) * 0x1_0000_0000_0000_0000u128 + (center.1 as u128)
    }

    /// Adds an element whatever it is, as the element explorer does.
    pub fn force_add(&mut self, center: (u64, u64)) -> (r: usize)
        requires
            old(self)@.len < usize::MAX,
            old(self).well_formed(),
        ensures
            r == old(self)@.len,
            final(self)@ == force_spec(old(self)@, center),
            final(self).well_formed(),
    {
        let k = Self::key(center);
        let idx = self.len;
        self.seen_center.insert(k, idx);
        self.len = idx + 1;
        idx
    }

    /// Adds a found element where it is worth a hint; one that shares its
    /// centre with a kept element replaces it.
    pub fn add(&mut self, c: &Candidate) -> (r: Admission)
        requires
            old(self)@.len < usize::MAX,
            old(self).well_formed(),
        ensures
            (final(self)@, r) == admit_spec(old(self)@, *c),
            r matches Admission::Replaces(i) ==> (i as nat) < old(self)@.len,
            final(self).well_formed(),
    {
        if !keeps_element(c) {
            return Admission::Rejected;
        }
        let k = Self::key(c.center);
        match self.seen_center.get(&k) {
            Some(idx) => Admission::Replaces(*idx),
            None => {
                let idx = self.len;
                self.seen_center.insert(k, idx);
                self.len = idx + 1;
                Admission::Added(idx)
            },
        }
    }

    /// Adds a found element for a search for `target`: the element explorer
    /// keeps everything, other searches keep what is worth a hint.
    pub fn add_by_target(&mut self, c: &Candidate, target: &Target) -> (r: Admission)
        requires
            old(self)@.len < usize::MAX,
            old(self).well_formed(),
        ensures
            final(self).well_formed(),
            r matches Admission::Replaces(i) ==> (i as nat) < old(self)@.len,
            target@ is ChildElement ==> r == Admission::Added(old(self)@.len as usize) && final(self)@
                == force_spec(old(self)@, c.center),
            !(target@ is ChildElement) ==> (final(self)@, r) == admit_spec(old(self)@, *c),
    {
        if matches!(target, Target::ChildElement) {
            let idx = self.force_add(c.center);
            Admission::Added(idx)
        } else {
            self.add(c)
        }
    }
}

} // verus!
