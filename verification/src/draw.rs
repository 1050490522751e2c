//! The constrained-selection engine: candidate filtering with the exclusion
//! rules, history-aware avoidance, and the uniform random pick.

use vstd::prelude::*;
use crate::helpers::{contains_id, lemma_filter_take_step, str_eq, vec_contains_string};
use crate::models::{Department, DrawRecord, QualitySpecialist, SpecialtyType};
use crate::round::{spec_cross_ids, spec_selected_ids, RoundTracker};
use crate::rng::pick_index;

verus! {

/// The view of an optional id.
pub open spec fn spec_opt_id(o: Option<&str>) -> Option<Seq<char>> {
    match o {
        Some(s) => Some(s@),
        None => None,
    }
}

/// Eligibility of one specialist for a draw: the specialty matches, the
/// specialist neither is nor belongs to the target department, is not the
/// most recent winner for this (target, specialty) pair, has not been
/// selected earlier this round, and does not belong to a cross-avoided
/// department.
pub open spec fn spec_eligible(
    s: QualitySpecialist,
    target_department_id: Seq<char>,
    specialty_type: SpecialtyType,
    last_selected_id: Option<Seq<char>>,
    round_selected_ids: Seq<String>,
    cross_avoidance_dept_ids: Seq<String>,
) -> bool {
    &&& s.specialty == specialty_type
    &&& s.id@ != target_department_id
    &&& s.department_id@ != target_department_id
    &&& (match last_selected_id {
        Some(id) => s.id@ != id,
        None => true,
    })
    &&& !contains_id(round_selected_ids, s.id@)
    &&& !contains_id(cross_avoidance_dept_ids, s.department_id@)
}

/// The eligible subset of `specialists`, in catalog order.
pub open spec fn spec_eligible_set(
    specialists: Seq<QualitySpecialist>,
    target_department_id: Seq<char>,
    specialty_type: SpecialtyType,
    last_selected_id: Option<Seq<char>>,
    round_selected_ids: Seq<String>,
    cross_avoidance_dept_ids: Seq<String>,
) -> Seq<QualitySpecialist> {
    specialists.filter(
        |s: QualitySpecialist|
            spec_eligible(
                s,
                target_department_id,
                specialty_type,
                last_selected_id,
                round_selected_ids,
                cross_avoidance_dept_ids,
            ),
    )
}

/// The names of the specialists in `s`, in the same order.
pub open spec fn spec_names(s: Seq<QualitySpecialist>) -> Seq<String> {
    s.map_values(|x: QualitySpecialist| x.name)
}

/// The id selected by the most recent record matching (target, specialty),
/// scanning the ledger from its end; `None` when no record matches.
pub open spec fn spec_last_selected(
    records: Seq<DrawRecord>,
    target_department_id: Seq<char>,
    specialty_type: SpecialtyType,
) -> Option<Seq<char>>
    decreases records.len(),
{
    if records.len() == 0 {
        None
    } else if records.last().target_department_id@ == target_department_id
        && records.last().specialty_type == specialty_type {
        Some(records.last().selected_specialist_id@)
    } else {
        spec_last_selected(records.drop_last(), target_department_id, specialty_type)
    }
}

/// The name of the first department in `depts` whose id is `id`, or the
/// unknown-department placeholder when none matches.
pub open spec fn spec_dept_name(depts: Seq<Department>, id: Seq<char>) -> Seq<char>
    decreases depts.len(),
{
    if depts.len() == 0 {
        "未知部门"@
    } else if depts[0].id@ == id {
        depts[0].name@
    } else {
        spec_dept_name(depts.skip(1), id)
    }
}

/// One step of the eligible set over a growing catalog prefix.
proof fn lemma_eligible_set_take_step(
    specialists: Seq<QualitySpecialist>,
    target: Seq<char>,
    sp: SpecialtyType,
    last: Option<Seq<char>>,
    already: Seq<String>,
    cross: Seq<String>,
    i: int,
)
    requires
        0 <= i < specialists.len(),
    ensures
        spec_eligible(specialists[i], target, sp, last, already, cross)
            ==> spec_eligible_set(specialists.take(i + 1), target, sp, last, already, cross)
                =~= spec_eligible_set(specialists.take(i), target, sp, last, already, cross).push(specialists[i]),
        !spec_eligible(specialists[i], target, sp, last, already, cross)
            ==> spec_eligible_set(specialists.take(i + 1), target, sp, last, already, cross)
                =~= spec_eligible_set(specialists.take(i), target, sp, last, already, cross),
{
    lemma_filter_take_step(
        specialists,
        |s: QualitySpecialist| spec_eligible(s, target, sp, last, already, cross),
        i,
    );
}

/// The draw engine.
pub struct DrawEngine;

impl DrawEngine {
    /// The list of candidates that may be drawn: the specialists satisfying
    /// every exclusion rule, in catalog order.
    pub fn get_candidates(
        specialists: &Vec<QualitySpecialist>,
        _departments: &Vec<Department>,
        target_department_id: &str,
        specialty_type: SpecialtyType,
        last_selected_id: Option<&str>,
        current_round_selected_ids: &Vec<String>,
        cross_avoidance_dept_ids: &Vec<String>,
    ) -> (r: Vec<QualitySpecialist>)
        ensures
            r@ == spec_eligible_set(
                specialists@,
                target_department_id@,
                specialty_type,
                spec_opt_id(last_selected_id),
                current_round_selected_ids@,
                cross_avoidance_dept_ids@,
            ),
    {
        let ghost lastv = spec_opt_id(last_selected_id);
        let mut r: Vec<QualitySpecialist> = Vec::new();
        let mut i: usize = 0;
        while i < specialists.len()
            invariant
                i <= specialists@.len(),
                lastv == spec_opt_id(last_selected_id),
                r@ == spec_eligible_set(
                    specialists@.take(i as int),
                    target_department_id@,
                    specialty_type,
                    lastv,
                    current_round_selected_ids@,
                    cross_avoidance_dept_ids@,
                ),
            decreases specialists@.len() - i,
        {
            let s = &specialists[i];
            let specialty_ok = s.specialty == specialty_type;
            let not_target = !str_eq(s.id.as_str(), target_department_id)
                && !str_eq(s.department_id.as_str(), target_department_id);
            let not_last = match last_selected_id {
                Some(last) => !str_eq(s.id.as_str(), last),
                None => true,
            };
            let not_round = !vec_contains_string(current_round_selected_ids, s.id.as_str());
            let not_cross = !vec_contains_string(cross_avoidance_dept_ids, s.department_id.as_str());
            let ok = specialty_ok && not_target && not_last && not_round && not_cross;
            proof {
                assert(ok == spec_eligible(
                    specialists@[i as int],
                    target_department_id@,
                    specialty_type,
                    lastv,
                    current_round_selected_ids@,
                    cross_avoidance_dept_ids@,
                ));
                lemma_eligible_set_take_step(
                    specialists@,
                    target_department_id@,
                    specialty_type,
                    lastv,
                    current_round_selected_ids@,
                    cross_avoidance_dept_ids@,
                    i as int,
                );
            }
            if ok {
                r.push(s.clone());
            }
            i = i + 1;
        }
        proof {
            assert(specialists@.take(specialists@.len() as int) =~= specialists@);
        }
        r
    }

    /// The candidate names shown while the wheel rolls, in catalog order.
    pub fn get_rolling_names(
        specialists: &Vec<QualitySpecialist>,
        target_department_id: &str,
        specialty_type: SpecialtyType,
        last_selected_id: Option<&str>,
        current_round_selected_ids: &Vec<String>,
        cross_avoidance_dept_ids: &Vec<String>,
    ) -> (r: Vec<String>)
        ensures
            r@ == spec_names(spec_eligible_set(
                specialists@,
                target_department_id@,
                specialty_type,
                spec_opt_id(last_selected_id),
                current_round_selected_ids@,
                cross_avoidance_dept_ids@,
            )),
    {
        let empty_departments: Vec<Department> = Vec::new();
        let candidates = Self::get_candidates(
            specialists,
            &empty_departments,
            target_department_id,
            specialty_type,
            last_selected_id,
            current_round_selected_ids,
            cross_avoidance_dept_ids,
        );
        names_of(&candidates)
    }

    /// Uniform random pick from the candidates: `None` exactly when the list
    /// is empty, otherwise a member of the list.
    pub fn draw_one(candidates: &Vec<QualitySpecialist>) -> (r: Option<QualitySpecialist>)
        ensures
            r is None <==> candidates@.len() == 0,
            r matches Some(s) ==> candidates@.contains(s),
    {
        if candidates.len() == 0 {
            None
        } else {
            let i = pick_index(candidates.len());
            let s = candidates[i].clone();
            proof {
                assert(candidates@.contains(candidates@[i as int]));
            }
            Some(s)
        }
    }

    /// Deterministic variant of the pick, for callers that inject the drawn
    /// position (e.g. a seeded test): returns the candidate at `index`.
    pub fn draw_at(candidates: &Vec<QualitySpecialist>, index: usize) -> (r: QualitySpecialist)
        requires
            index < candidates@.len(),
        ensures
            r == candidates@[index as int],
    {
        candidates[index].clone()
    }

    /// The eligible candidates together with the single-candidate rule: if
    /// consecutive-avoidance empties the set but the set without it has
    /// exactly one member, that member is reselected and the flag reports
    /// the forced choice. Only the consecutive-avoidance rule is bypassed;
    /// the department and round exclusions always stand.
    pub fn candidates_with_bypass(
        specialists: &Vec<QualitySpecialist>,
        target_department_id: &str,
        specialty_type: SpecialtyType,
        last_selected_id: Option<&str>,
        current_round_selected_ids: &Vec<String>,
        cross_avoidance_dept_ids: &Vec<String>,
    ) -> (r: (Vec<QualitySpecialist>, bool))
        ensures
            ({
                let full = spec_eligible_set(
                    specialists@,
                    target_department_id@,
                    specialty_type,
                    spec_opt_id(last_selected_id),
                    current_round_selected_ids@,
                    cross_avoidance_dept_ids@,
                );
                let wide = spec_eligible_set(
                    specialists@,
                    target_department_id@,
                    specialty_type,
                    None,
                    current_round_selected_ids@,
                    cross_avoidance_dept_ids@,
                );
                &&& full.len() > 0 ==> r.0@ == full && r.1 == false
                &&& full.len() == 0 && wide.len() == 1 ==> r.0@ == wide && r.1 == true
                &&& full.len() == 0 && wide.len() != 1 ==> r.0@.len() == 0 && r.1 == false
            }),
    {
        let empty_departments: Vec<Department> = Vec::new();
        let full = Self::get_candidates(
            specialists,
            &empty_departments,
            target_department_id,
            specialty_type,
            last_selected_id,
            current_round_selected_ids,
            cross_avoidance_dept_ids,
        );
        if full.len() > 0 {
            (full, false)
        } else {
            let wide = Self::get_candidates(
                specialists,
                &empty_departments,
                target_department_id,
                specialty_type,
                None,
                current_round_selected_ids,
                cross_avoidance_dept_ids,
            );
            if wide.len() == 1 {
                (wide, true)
            } else {
                (Vec::new(), false)
            }
        }
    }

    /// One complete draw: determines the consecutive-avoidance id from the
    /// ledger, the round-local exclusions from the tracker, filters, applies
    /// the single-candidate rule and picks uniformly at random. Returns the
    /// selected specialist and the name of their department, or `None` when
    /// no candidate is eligible.
    pub fn execute_draw(
        specialists: &Vec<QualitySpecialist>,
        departments: &Vec<Department>,
        target_department: &Department,
        specialty_type: SpecialtyType,
        records: &Vec<DrawRecord>,
        round: &RoundTracker,
    ) -> (r: Option<(QualitySpecialist, String)>)
        ensures
            ({
                let last = spec_last_selected(records@, target_department.id@, specialty_type);
                let already = spec_selected_ids(round.entries_for(specialty_type));
                let cross = spec_cross_ids(round.entries_for(specialty_type), target_department.id@);
                let full = spec_eligible_set(
                    specialists@, target_department.id@, specialty_type, last, already, cross);
                let wide = spec_eligible_set(
                    specialists@, target_department.id@, specialty_type, None, already, cross);
                match r {
                    None => full.len() == 0 && wide.len() != 1,
                    Some((s, name)) => {
                        &&& (full.contains(s) || (full.len() == 0 && wide.len() == 1 && s == wide[0]))
                        &&& name@ == spec_dept_name(departments@, s.department_id@)
                    },
                }
            }),
    {
        let last = find_last_selected(records, target_department.id.as_str(), specialty_type);
        let already = round.already_selected(specialty_type);
        let cross = round.cross_avoidance(target_department.id.as_str(), specialty_type);
        let last_ref: Option<&str> = match &last {
            Some(s) => Some(s.as_str()),
            None => None,
        };
        proof {
            assert(spec_opt_id(last_ref)
                == spec_last_selected(records@, target_department.id@, specialty_type));
        }
        let (candidates, _forced) = Self::candidates_with_bypass(
            specialists,
            target_department.id.as_str(),
            specialty_type,
            last_ref,
            &already,
            &cross,
        );
        match Self::draw_one(&candidates) {
            Some(selected) => {
                let dept_name = dept_name_of(departments, selected.department_id.as_str());
                Some((selected, dept_name))
            },
            None => None,
        }
    }
}

/// The names of the given specialists, in order.
pub fn names_of(candidates: &Vec<QualitySpecialist>) -> (r: Vec<String>)
    ensures
        r@ == spec_names(candidates@),
{
    let mut r: Vec<String> = Vec::new();
    let mut i: usize = 0;
    while i < candidates.len()
        invariant
            i <= candidates@.len(),
            r@.len() == i,
            forall|j: int| 0 <= j < i ==> #[trigger] r@[j] == candidates@[j].name,
        decreases candidates@.len() - i,
    {
        r.push(candidates[i].name.clone());
        i = i + 1;
    }
    proof {
        assert(r@ =~= spec_names(candidates@));
    }
    r
}

/// Scans the ledger from the most recent record backwards for the last
/// winner recorded for this (target, specialty) pair.
pub fn find_last_selected(
    records: &Vec<DrawRecord>,
    target_department_id: &str,
    specialty_type: SpecialtyType,
) -> (r: Option<String>)
    ensures
        ({
            let l = spec_last_selected(records@, target_department_id@, specialty_type);
            match r {
                Some(s) => l == Some(s@),
                None => l is None,
            }
        }),
{
    let mut i: usize = records.len();
    proof {
        assert(records@.take(records@.len() as int) =~= records@);
    }
    while i > 0
        invariant
            i <= records@.len(),
            spec_last_selected(records@, target_department_id@, specialty_type)
                == spec_last_selected(records@.take(i as int), target_department_id@, specialty_type),
        decreases i,
    {
        i = i - 1;
        let rec = &records[i];
        proof {
            assert(records@.take(i + 1).last() == records@[i as int]);
            assert(records@.take(i + 1).drop_last() =~= records@.take(i as int));
        }
        if str_eq(rec.target_department_id.as_str(), target_department_id)
            && rec.specialty_type == specialty_type {
            return Some(rec.selected_specialist_id.clone());
        }
    }
    proof {
        assert(records@.take(0).len() == 0);
    }
    None
}

/// Finds the name of the department with the given id, falling back to the
/// unknown-department placeholder.
pub fn dept_name_of(departments: &Vec<Department>, department_id: &str) -> (r: String)
    ensures
        r@ == spec_dept_name(departments@, department_id@),
{
    let mut i: usize = 0;
    proof {
        assert(departments@.skip(0) =~= departments@);
    }
    while i < departments.len()
        invariant
            i <= departments@.len(),
            spec_dept_name(departments@, department_id@)
                == spec_dept_name(departments@.skip(i as int), department_id@),
        decreases departments@.len() - i,
    {
        proof {
            assert(departments@.skip(i as int)[0] == departments@[i as int]);
            assert(departments@.skip(i as int).skip(1) =~= departments@.skip(i + 1));
        }
        if str_eq(departments[i].id.as_str(), department_id) {
            return departments[i].name.clone();
        }
        i = i + 1;
    }
    proof {
        assert(departments@.skip(departments@.len() as int).len() == 0);
    }
    "未知部门".to_owned()
}


/// Every member of the eligible set satisfies the eligibility predicate.
pub proof fn lemma_eligible_set_members(
    specialists: Seq<QualitySpecialist>,
    target: Seq<char>,
    sp: SpecialtyType,
    last: Option<Seq<char>>,
    already: Seq<String>,
    cross: Seq<String>,
)
    ensures
        forall|i: int|
            0 <= i < spec_eligible_set(specialists, target, sp, last, already, cross).len()
                ==> spec_eligible(
                #[trigger] spec_eligible_set(specialists, target, sp, last, already, cross)[i],
                target,
                sp,
                last,
                already,
                cross,
            ),
{
    let pred = |s: QualitySpecialist| spec_eligible(s, target, sp, last, already, cross);
    assert forall|i: int| 0 <= i < specialists.filter(pred).len() implies pred(
        specialists.filter(pred)[i],
    ) by {
        specialists.lemma_filter_pred(pred, i);
    }
}

/// Law: no self-inspection. No eligible candidate is the target, nor belongs
/// to the target department, so the picked entity always differs from the
/// target.
pub proof fn lemma_no_self_inspection(
    specialists: Seq<QualitySpecialist>,
    target: Seq<char>,
    sp: SpecialtyType,
    last: Option<Seq<char>>,
    already: Seq<String>,
    cross: Seq<String>,
)
    ensures
        forall|i: int|
            0 <= i < spec_eligible_set(specialists, target, sp, last, already, cross).len()
                ==> (#[trigger] spec_eligible_set(specialists, target, sp, last, already, cross)[i]).id@
                != target && spec_eligible_set(specialists, target, sp, last, already, cross)[i].department_id@
                != target,
{
    lemma_eligible_set_members(specialists, target, sp, last, already, cross);
}

/// Law: round uniqueness. No eligible candidate has been selected earlier in
/// the same round and category, so no entity is selected twice in one round.
pub proof fn lemma_round_uniqueness(
    specialists: Seq<QualitySpecialist>,
    target: Seq<char>,
    sp: SpecialtyType,
    last: Option<Seq<char>>,
    already: Seq<String>,
    cross: Seq<String>,
)
    ensures
        forall|i: int|
            0 <= i < spec_eligible_set(specialists, target, sp, last, already, cross).len()
                ==> !contains_id(
                already,
                (#[trigger] spec_eligible_set(specialists, target, sp, last, already, cross)[i]).id@,
            ),
{
    lemma_eligible_set_members(specialists, target, sp, last, already, cross);
}

/// Law: consecutive avoidance. When a most recent winner is known, no member
/// of the (unbypassed) eligible set is that winner.
pub proof fn lemma_consecutive_avoidance(
    specialists: Seq<QualitySpecialist>,
    target: Seq<char>,
    sp: SpecialtyType,
    last_id: Seq<char>,
    already: Seq<String>,
    cross: Seq<String>,
)
    ensures
        forall|i: int|
            0 <= i < spec_eligible_set(specialists, target, sp, Some(last_id), already, cross).len()
                ==> (#[trigger] spec_eligible_set(
                specialists,
                target,
                sp,
                Some(last_id),
                already,
                cross,
            )[i]).id@ != last_id,
{
    lemma_eligible_set_members(specialists, target, sp, Some(last_id), already, cross);
}

/// Law: cross-avoidance. If an entry of the current round sent an entity of
/// group `target` to inspect some department, then no candidate eligible for
/// a draw on `target` belongs to that department.
pub proof fn lemma_cross_avoidance(
    entries: Seq<crate::round::RoundEntry>,
    k: int,
    specialists: Seq<QualitySpecialist>,
    target: Seq<char>,
    sp: SpecialtyType,
    last: Option<Seq<char>>,
    already: Seq<String>,
)
    requires
        0 <= k < entries.len(),
        entries[k].selected_group_id@ == target,
    ensures
        forall|i: int|
            0 <= i < spec_eligible_set(
                specialists,
                target,
                sp,
                last,
                already,
                spec_cross_ids(entries, target),
            ).len() ==> (#[trigger] spec_eligible_set(
                specialists,
                target,
                sp,
                last,
                already,
                spec_cross_ids(entries, target),
            )[i]).department_id@ != entries[k].target_id@,
{
    let cross = spec_cross_ids(entries, target);
    crate::round::lemma_cross_ids_complete(entries, target, k);
    lemma_eligible_set_members(specialists, target, sp, last, already, cross);
}

/// Law: the single-candidate rule fires only for a sole survivor. With
/// distinct catalog ids, if consecutive-avoidance empties the eligible set
/// while the set without it is non-empty, then that wider set holds exactly
/// one specialist — the most recent winner — whom the bypass reselects.
pub proof fn lemma_forced_reselection_only_sole(
    specialists: Seq<QualitySpecialist>,
    target: Seq<char>,
    sp: SpecialtyType,
    last_id: Seq<char>,
    already: Seq<String>,
    cross: Seq<String>,
)
    requires
        forall|i: int, j: int|
            0 <= i < j < specialists.len() ==> #[trigger] specialists[i].id@
                != #[trigger] specialists[j].id@,
        spec_eligible_set(specialists, target, sp, Some(last_id), already, cross).len() == 0,
        spec_eligible_set(specialists, target, sp, None, already, cross).len() > 0,
    ensures
        spec_eligible_set(specialists, target, sp, None, already, cross).len() == 1,
        spec_eligible_set(specialists, target, sp, None, already, cross)[0].id@ == last_id,
    decreases specialists.len(),
{
    reveal(Seq::filter);
    let fpred = |s: QualitySpecialist| spec_eligible(s, target, sp, Some(last_id), already, cross);
    let wpred = |s: QualitySpecialist| spec_eligible(s, target, sp, None, already, cross);
    let wide = specialists.filter(wpred);
    if specialists.len() == 0 {
        assert(wide.len() == 0);
    } else {
        let rest = specialists.drop_last();
        let x = specialists.last();
        assert(specialists.filter(fpred) == if fpred(x) {
            rest.filter(fpred).push(x)
        } else {
            rest.filter(fpred)
        });
        assert(wide == if wpred(x) {
            rest.filter(wpred).push(x)
        } else {
            rest.filter(wpred)
        });
        assert(!fpred(x));
        assert(rest.filter(fpred).len() == 0);
        if wpred(x) {
            assert(x.id@ == last_id);
            if rest.filter(wpred).len() > 0 {
                lemma_forced_reselection_only_sole(rest, target, sp, last_id, already, cross);
                let y = rest.filter(wpred)[0];
                assert(y.id@ == last_id);
                rest.lemma_filter_contains_rev(wpred, y);
                let k = choose|k: int| 0 <= k < rest.len() && rest[k] == y;
                assert(rest[k] == specialists[k]);
                // Two distinct catalog entries would both carry the last
                // winner's id, contradicting distinctness.
                assert(specialists[k].id@ != specialists[specialists.len() - 1].id@);
                assert(false);
            }
            assert(wide =~= rest.filter(wpred).push(x));
        } else {
            assert(wide == rest.filter(wpred));
            lemma_forced_reselection_only_sole(rest, target, sp, last_id, already, cross);
        }
    }
}

} // verus!
