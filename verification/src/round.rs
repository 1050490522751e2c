//! Round-scoped pairing state.
//!
//! A round is a bounded session of draws. For each category the tracker keeps
//! the ordered list of pairings made since the last reset; the list feeds the
//! already-selected and cross-avoidance exclusions of later draws in the same
//! round. Cross-avoidance here is round-local only: exclusions derive from
//! pairings recorded in the current round, not from the persisted history.

use vstd::prelude::*;
use crate::helpers::{contains_id, str_eq, vec_contains_string};
use crate::models::SpecialtyType;

verus! {

/// One pairing made in the current round: `target_id` was inspected by the
/// entity `selected_id`, which belongs to the group `selected_group_id`.
#[derive(Debug)]
pub struct RoundEntry {
    pub target_id: String,
    pub selected_id: String,
    pub selected_group_id: String,
}

impl Clone for RoundEntry {
    fn clone(&self) -> (r: Self)
        ensures
            r == *self,
    {
        RoundEntry {
            target_id: self.target_id.clone(),
            selected_id: self.selected_id.clone(),
            selected_group_id: self.selected_group_id.clone(),
        }
    }
}

/// The ids selected so far in these entries, in order of recording.
pub open spec fn spec_selected_ids(entries: Seq<RoundEntry>) -> Seq<String> {
    entries.map_values(|e: RoundEntry| e.selected_id)
}

/// The ids drawn for (the targets) so far in these entries.
pub open spec fn spec_target_ids(entries: Seq<RoundEntry>) -> Seq<String> {
    entries.map_values(|e: RoundEntry| e.target_id)
}

/// The round-local cross-avoidance group ids for a draw whose target is
/// `target`: if an entry sent an entity of group `target` to inspect some
/// department, that department must not inspect `target` in the same round.
pub open spec fn spec_cross_ids(entries: Seq<RoundEntry>, target: Seq<char>) -> Seq<String>
    decreases entries.len(),
{
    if entries.len() == 0 {
        Seq::empty()
    } else {
        let rest = spec_cross_ids(entries.drop_last(), target);
        if entries.last().selected_group_id@ == target {
            rest.push(entries.last().target_id)
        } else {
            rest
        }
    }
}

/// Whatever an entry contributes to the cross-avoidance list is in it.
pub proof fn lemma_cross_ids_complete(entries: Seq<RoundEntry>, target: Seq<char>, i: int)
    requires
        0 <= i < entries.len(),
        entries[i].selected_group_id@ == target,
    ensures
        contains_id(spec_cross_ids(entries, target), entries[i].target_id@),
    decreases entries.len(),
{
    if i == entries.len() - 1 {
        let cross = spec_cross_ids(entries, target);
        assert(cross.last() == entries[i].target_id);
        assert(cross[cross.len() - 1]@ == entries[i].target_id@);
    } else {
        lemma_cross_ids_complete(entries.drop_last(), target, i);
        let rest = spec_cross_ids(entries.drop_last(), target);
        let cross = spec_cross_ids(entries, target);
        let j = choose|j: int| 0 <= j < rest.len() && #[trigger] rest[j]@ == entries[i].target_id@;
        assert(cross[j]@ == entries[i].target_id@);
    }
}

/// In-memory, session-scoped record of the pairings already made this round,
/// one ordered list per category.
#[derive(Debug)]
pub struct RoundTracker {
    pub pressure: Vec<RoundEntry>,
    pub mechanical: Vec<RoundEntry>,
}

impl Clone for RoundTracker {
    fn clone(&self) -> (r: Self)
        ensures
            r.pressure@ == self.pressure@,
            r.mechanical@ == self.mechanical@,
    {
        let p = self.pressure.clone();
        let m = self.mechanical.clone();
        proof {
            assert forall|i: int| 0 <= i < self.pressure@.len() implies p@[i] == self.pressure@[i] by {
                assert(vstd::pervasive::cloned::<RoundEntry>(self.pressure[i], p[i]));
            }
            assert(p@ =~= self.pressure@);
            assert forall|i: int| 0 <= i < self.mechanical@.len() implies m@[i] == self.mechanical@[i] by {
                assert(vstd::pervasive::cloned::<RoundEntry>(self.mechanical[i], m[i]));
            }
            assert(m@ =~= self.mechanical@);
        }
        RoundTracker { pressure: p, mechanical: m }
    }
}

impl RoundTracker {
    /// The entries recorded this round for one category.
    pub open spec fn entries_for(self, category: SpecialtyType) -> Seq<RoundEntry> {
        match category {
            SpecialtyType::Pressure => self.pressure@,
            SpecialtyType::Mechanical => self.mechanical@,
        }
    }

    /// Round invariant for one list: within one round and one category no
    /// entity is selected twice and no target is drawn for twice.
    pub open spec fn entries_wf(entries: Seq<RoundEntry>) -> bool {
        &&& forall|i: int, j: int|
            0 <= i < j < entries.len() ==> #[trigger] entries[i].selected_id@ != #[trigger] entries[j].selected_id@
        &&& forall|i: int, j: int|
            0 <= i < j < entries.len() ==> #[trigger] entries[i].target_id@ != #[trigger] entries[j].target_id@
    }

    pub open spec fn wf(self) -> bool {
        &&& Self::entries_wf(self.pressure@)
        &&& Self::entries_wf(self.mechanical@)
    }

    pub fn new() -> (r: Self)
        ensures
            r.pressure@.len() == 0,
            r.mechanical@.len() == 0,
            r.wf(),
    {
        RoundTracker { pressure: Vec::new(), mechanical: Vec::new() }
    }

    /// Clears all per-category pairing lists: the only mutation that removes
    /// round state. Nothing else of the session is touched.
    pub fn reset(&mut self)
        ensures
            final(self).pressure@.len() == 0,
            final(self).mechanical@.len() == 0,
            final(self).wf(),
    {
        self.pressure = Vec::new();
        self.mechanical = Vec::new();
    }

    /// Whether `target_id` has already been drawn for in this category this
    /// round; used to block duplicate draw requests.
    pub fn has_target_drawn(&self, target_id: &str, category: SpecialtyType) -> (r: bool)
        ensures
            r == contains_id(spec_target_ids(self.entries_for(category)), target_id@),
    {
        let entries = match category {
            SpecialtyType::Pressure => &self.pressure,
            SpecialtyType::Mechanical => &self.mechanical,
        };
        let mut i: usize = 0;
        let ghost tids = spec_target_ids(self.entries_for(category));
        while i < entries.len()
            invariant
                i <= entries@.len(),
                entries@ == self.entries_for(category),
                tids == spec_target_ids(entries@),
                forall|j: int| 0 <= j < i ==> #[trigger] entries@[j].target_id@ != target_id@,
            decreases entries@.len() - i,
        {
            if str_eq(entries[i].target_id.as_str(), target_id) {
                proof {
                    assert(tids[i as int]@ == target_id@);
                }
                return true;
            }
            i = i + 1;
        }
        proof {
            assert(forall|j: int| 0 <= j < tids.len() ==> #[trigger] tids[j]@ != target_id@);
        }
        false
    }

    /// The ids selected this round for the category, in order of recording.
    pub fn already_selected(&self, category: SpecialtyType) -> (r: Vec<String>)
        ensures
            r@ == spec_selected_ids(self.entries_for(category)),
    {
        let entries = match category {
            SpecialtyType::Pressure => &self.pressure,
            SpecialtyType::Mechanical => &self.mechanical,
        };
        let mut r: Vec<String> = Vec::new();
        let mut i: usize = 0;
        while i < entries.len()
            invariant
                i <= entries@.len(),
                entries@ == self.entries_for(category),
                r@.len() == i,
                forall|j: int| 0 <= j < i ==> #[trigger] r@[j] == entries@[j].selected_id,
            decreases entries@.len() - i,
        {
            r.push(entries[i].selected_id.clone());
            i = i + 1;
        }
        proof {
            assert(r@ =~= spec_selected_ids(self.entries_for(category)));
        }
        r
    }

    /// The round-local cross-avoidance group ids for a draw on `target_id`.
    pub fn cross_avoidance(&self, target_id: &str, category: SpecialtyType) -> (r: Vec<String>)
        ensures
            r@ == spec_cross_ids(self.entries_for(category), target_id@),
    {
        let entries = match category {
            SpecialtyType::Pressure => &self.pressure,
            SpecialtyType::Mechanical => &self.mechanical,
        };
        let mut r: Vec<String> = Vec::new();
        let mut i: usize = 0;
        while i < entries.len()
            invariant
                i <= entries@.len(),
                entries@ == self.entries_for(category),
                r@ == spec_cross_ids(entries@.take(i as int), target_id@),
            decreases entries@.len() - i,
        {
            proof {
                assert(entries@.take(i + 1).drop_last() =~= entries@.take(i as int));
                assert(entries@.take(i + 1).last() == entries@[i as int]);
            }
            if str_eq(entries[i].selected_group_id.as_str(), target_id) {
                r.push(entries[i].target_id.clone());
            }
            i = i + 1;
        }
        proof {
            assert(entries@.take(entries@.len() as int) =~= entries@);
        }
        r
    }

    /// Appends a pairing to the category's list. On conflict with the round
    /// invariant (the target already drawn for, or the entity already
    /// selected) it records nothing and reports `false`.
    pub fn record(&mut self, target_id: &str, selected_id: &str, selected_group_id: &str, category: SpecialtyType) -> (r: bool)
        ensures
            r == (!contains_id(spec_target_ids(old(self).entries_for(category)), target_id@)
                && !contains_id(spec_selected_ids(old(self).entries_for(category)), selected_id@)),
            r ==> {
                let entries = final(self).entries_for(category);
                let olds = old(self).entries_for(category);
                &&& entries.len() == olds.len() + 1
                &&& entries.drop_last() == olds
                &&& entries.last().target_id@ == target_id@
                &&& entries.last().selected_id@ == selected_id@
                &&& entries.last().selected_group_id@ == selected_group_id@
            },
            !r ==> final(self).entries_for(category) == old(self).entries_for(category),
            final(self).entries_for(other_category(category)) == old(self).entries_for(other_category(category)),
            old(self).wf() ==> final(self).wf(),
    {
        if self.has_target_drawn(target_id, category) {
            return false;
        }
        let already = self.already_selected(category);
        if vec_contains_string(&already, selected_id) {
            return false;
        }
        let entry = RoundEntry {
            target_id: target_id.to_owned(),
            selected_id: selected_id.to_owned(),
            selected_group_id: selected_group_id.to_owned(),
        };
        let ghost olds = self.entries_for(category);
        match category {
            SpecialtyType::Pressure => self.pressure.push(entry),
            SpecialtyType::Mechanical => self.mechanical.push(entry),
        }
        proof {
            let entries = self.entries_for(category);
            assert(entries.drop_last() =~= olds);
            assert(forall|j: int| 0 <= j < olds.len()
                ==> #[trigger] spec_target_ids(olds)[j] == olds[j].target_id);
            assert(forall|j: int| 0 <= j < olds.len()
                ==> #[trigger] spec_selected_ids(olds)[j] == olds[j].selected_id);
            if Self::entries_wf(olds) {
                assert forall|i: int, j: int| 0 <= i < j < entries.len()
                    implies #[trigger] entries[i].selected_id@ != #[trigger] entries[j].selected_id@ by {
                    if j == entries.len() - 1 {
                        assert(spec_selected_ids(olds)[i]@ == entries[i].selected_id@);
                    }
                }
                assert forall|i: int, j: int| 0 <= i < j < entries.len()
                    implies #[trigger] entries[i].target_id@ != #[trigger] entries[j].target_id@ by {
                    if j == entries.len() - 1 {
                        assert(spec_target_ids(olds)[i]@ == entries[i].target_id@);
                    }
                }
            }
        }
        true
    }

    /// The pairing list of one category as plain `(target_id, selected_id)`
    /// pairs, for display of the round's status.
    pub fn status_pairs(&self, category: SpecialtyType) -> (r: Vec<(String, String)>)
        ensures
            r@.len() == self.entries_for(category).len(),
            forall|j: int| 0 <= j < r@.len() ==> #[trigger] r@[j]
                == (self.entries_for(category)[j].target_id, self.entries_for(category)[j].selected_id),
    {
        let entries = match category {
            SpecialtyType::Pressure => &self.pressure,
            SpecialtyType::Mechanical => &self.mechanical,
        };
        let mut r: Vec<(String, String)> = Vec::new();
        let mut i: usize = 0;
        while i < entries.len()
            invariant
                i <= entries@.len(),
                entries@ == self.entries_for(category),
                r@.len() == i,
                forall|j: int| 0 <= j < i ==> #[trigger] r@[j]
                    == (entries@[j].target_id, entries@[j].selected_id),
            decreases entries@.len() - i,
        {
            r.push((entries[i].target_id.clone(), entries[i].selected_id.clone()));
            i = i + 1;
        }
        r
    }
}

/// The category a draw for `category` leaves untouched.
pub open spec fn other_category(category: SpecialtyType) -> SpecialtyType {
    match category {
        SpecialtyType::Pressure => SpecialtyType::Mechanical,
        SpecialtyType::Mechanical => SpecialtyType::Pressure,
    }
}

} // verus!
