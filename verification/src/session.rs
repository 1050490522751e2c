//! The draw session: the persisted ledger of records together with the
//! round-scoped tracker, and the complete department-draw operation with its
//! error taxonomy.

use vstd::prelude::*;
use crate::draw::{find_last_selected, spec_last_selected};
use crate::helpers::{contains_id, lemma_filter_take_step, str_eq, vec_contains_string};
use crate::models::{Department, DrawRecord, SpecialtyType};
use crate::rng::pick_index;
use crate::round::{
    other_category, spec_cross_ids, spec_selected_ids, spec_target_ids, RoundTracker,
};

verus! {

/// Why a draw request was rejected. Every kind is locally recoverable;
/// retrying with identical state reproduces the identical error.
#[derive(Debug, Clone, Copy, PartialEq, Eq, Structural)]
pub enum DrawError {
    /// The requested category is unrecognized.
    InvalidCategory,
    /// The target id is absent from the catalog snapshot.
    UnknownTarget,
    /// The fully-constrained candidate set is empty and no single-candidate
    /// bypass applies.
    NoCandidates,
    /// This (target, category) pair was already drawn for this round.
    DuplicateDrawInRound,
}

impl DrawError {
    pub open spec fn spec_message(self) -> Seq<char> {
        match self {
            DrawError::InvalidCategory => "无效的专责类型"@,
            DrawError::UnknownTarget => "未找到目标部门"@,
            DrawError::NoCandidates => "没有符合条件的候选部门"@,
            DrawError::DuplicateDrawInRound => "该部门本轮已抽取过"@,
        }
    }

    /// The user-facing message of this error.
    pub fn message(&self) -> (r: String)
        ensures
            r@ == self.spec_message(),
    {
        match self {
            DrawError::InvalidCategory => "无效的专责类型".to_owned(),
            DrawError::UnknownTarget => "未找到目标部门".to_owned(),
            DrawError::NoCandidates => "没有符合条件的候选部门".to_owned(),
            DrawError::DuplicateDrawInRound => "该部门本轮已抽取过".to_owned(),
        }
    }
}

/// The outcome of a draw request, in the shape handed to the interface
/// layer.
#[derive(Debug)]
pub struct DrawResult {
    pub success: bool,
    pub department_name: Option<String>,
    pub department_id: Option<String>,
    pub specialty_type: Option<String>,
    pub message: Option<String>,
    /// Whether the single-candidate rule forced this outcome.
    pub forced_unique: bool,
}

/// The category named by a request string, if recognized.
pub open spec fn spec_parse_specialty(s: Seq<char>) -> Option<SpecialtyType> {
    if s == "Pressure"@ {
        Some(SpecialtyType::Pressure)
    } else if s == "Mechanical"@ {
        Some(SpecialtyType::Mechanical)
    } else {
        None
    }
}

/// Parses a category request string.
pub fn parse_specialty(s: &str) -> (r: Option<SpecialtyType>)
    ensures
        r == spec_parse_specialty(s@),
{
    if str_eq(s, "Pressure") {
        Some(SpecialtyType::Pressure)
    } else if str_eq(s, "Mechanical") {
        Some(SpecialtyType::Mechanical)
    } else {
        None
    }
}

/// Eligibility of a department for a draw on `target`: its category
/// satisfies the requested specialty, it is not the target itself, not the
/// most recent winner for this pair, not selected earlier this round, and
/// not cross-avoided.
pub open spec fn spec_dept_eligible(
    d: Department,
    target: Seq<char>,
    sp: SpecialtyType,
    last: Option<Seq<char>>,
    already: Seq<String>,
    cross: Seq<String>,
) -> bool {
    &&& d.department_type.spec_satisfies(sp)
    &&& d.id@ != target
    &&& (match last {
        Some(id) => d.id@ != id,
        None => true,
    })
    &&& !contains_id(already, d.id@)
    &&& !contains_id(cross, d.id@)
}

/// The eligible departments, in catalog order.
pub open spec fn spec_eligible_depts(
    depts: Seq<Department>,
    target: Seq<char>,
    sp: SpecialtyType,
    last: Option<Seq<char>>,
    already: Seq<String>,
    cross: Seq<String>,
) -> Seq<Department> {
    depts.filter(|d: Department| spec_dept_eligible(d, target, sp, last, already, cross))
}

/// The first department in `depts` with the given id.
pub open spec fn spec_find_dept(depts: Seq<Department>, id: Seq<char>) -> Option<Department>
    decreases depts.len(),
{
    if depts.len() == 0 {
        None
    } else if depts[0].id@ == id {
        Some(depts[0])
    } else {
        spec_find_dept(depts.skip(1), id)
    }
}

/// The names of the given departments, in order.
pub open spec fn spec_dept_names(depts: Seq<Department>) -> Seq<String> {
    depts.map_values(|d: Department| d.name)
}

/// One step of the department filter over a growing prefix.
proof fn lemma_eligible_depts_take_step(
    depts: Seq<Department>,
    target: Seq<char>,
    sp: SpecialtyType,
    last: Option<Seq<char>>,
    already: Seq<String>,
    cross: Seq<String>,
    i: int,
)
    requires
        0 <= i < depts.len(),
    ensures
        spec_dept_eligible(depts[i], target, sp, last, already, cross)
            ==> spec_eligible_depts(depts.take(i + 1), target, sp, last, already, cross)
                =~= spec_eligible_depts(depts.take(i), target, sp, last, already, cross).push(depts[i]),
        !spec_dept_eligible(depts[i], target, sp, last, already, cross)
            ==> spec_eligible_depts(depts.take(i + 1), target, sp, last, already, cross)
                =~= spec_eligible_depts(depts.take(i), target, sp, last, already, cross),
{
    lemma_filter_take_step(
        depts,
        |d: Department| spec_dept_eligible(d, target, sp, last, already, cross),
        i,
    );
}

/// Every member of the eligible department set satisfies the eligibility
/// predicate.
pub proof fn lemma_eligible_depts_members(
    depts: Seq<Department>,
    target: Seq<char>,
    sp: SpecialtyType,
    last: Option<Seq<char>>,
    already: Seq<String>,
    cross: Seq<String>,
)
    ensures
        forall|i: int|
            0 <= i < spec_eligible_depts(depts, target, sp, last, already, cross).len()
                ==> spec_dept_eligible(
                #[trigger] spec_eligible_depts(depts, target, sp, last, already, cross)[i],
                target,
                sp,
                last,
                already,
                cross,
            ),
{
    let pred = |d: Department| spec_dept_eligible(d, target, sp, last, already, cross);
    assert forall|i: int| 0 <= i < depts.filter(pred).len() implies pred(depts.filter(pred)[i]) by {
        depts.lemma_filter_pred(pred, i);
    }
}

/// Finds the first department with the given id.
pub fn find_department(departments: &Vec<Department>, id: &str) -> (r: Option<Department>)
    ensures
        ({
            let f = spec_find_dept(departments@, id@);
            match r {
                Some(d) => f == Some(d),
                None => f is None,
            }
        }),
{
    let mut i: usize = 0;
    proof {
        assert(departments@.skip(0) =~= departments@);
    }
    while i < departments.len()
        invariant
            i <= departments@.len(),
            spec_find_dept(departments@, id@) == spec_find_dept(departments@.skip(i as int), id@),
        decreases departments@.len() - i,
    {
        proof {
            assert(departments@.skip(i as int)[0] == departments@[i as int]);
            assert(departments@.skip(i as int).skip(1) =~= departments@.skip(i + 1));
        }
        if str_eq(departments[i].id.as_str(), id) {
            return Some(departments[i].clone());
        }
        i = i + 1;
    }
    proof {
        assert(departments@.skip(departments@.len() as int).len() == 0);
    }
    None
}

/// The eligible departments for a draw, in catalog order.
fn eligible_departments(
    departments: &Vec<Department>,
    target_department_id: &str,
    sp: SpecialtyType,
    last: Option<&str>,
    already: &Vec<String>,
    cross: &Vec<String>,
) -> (r: Vec<Department>)
    ensures
        r@ == spec_eligible_depts(
            departments@,
            target_department_id@,
            sp,
            crate::draw::spec_opt_id(last),
            already@,
            cross@,
        ),
{
    let ghost lastv = crate::draw::spec_opt_id(last);
    let mut r: Vec<Department> = Vec::new();
    let mut i: usize = 0;
    while i < departments.len()
        invariant
            i <= departments@.len(),
            lastv == crate::draw::spec_opt_id(last),
            r@ == spec_eligible_depts(
                departments@.take(i as int),
                target_department_id@,
                sp,
                lastv,
                already@,
                cross@,
            ),
        decreases departments@.len() - i,
    {
        let d = &departments[i];
        let type_ok = d.department_type.satisfies(sp);
        let not_target = !str_eq(d.id.as_str(), target_department_id);
        let not_last = match last {
            Some(l) => !str_eq(d.id.as_str(), l),
            None => true,
        };
        let not_round = !vec_contains_string(already, d.id.as_str());
        let not_cross = !vec_contains_string(cross, d.id.as_str());
        let ok = type_ok && not_target && not_last && not_round && not_cross;
        proof {
            assert(ok == spec_dept_eligible(
                departments@[i as int],
                target_department_id@,
                sp,
                lastv,
                already@,
                cross@,
            ));
            lemma_eligible_depts_take_step(
                departments@,
                target_department_id@,
                sp,
                lastv,
                already@,
                cross@,
                i as int,
            );
        }
        if ok {
            r.push(d.clone());
        }
        i = i + 1;
    }
    proof {
        assert(departments@.take(departments@.len() as int) =~= departments@);
    }
    r
}

/// A failed draw, carrying the error's message.
fn fail_result(e: DrawError) -> (r: DrawResult)
    ensures
        !r.success,
        r.department_name is None,
        r.department_id is None,
        r.specialty_type is None,
        r.message matches Some(m) && m@ == e.spec_message(),
        !r.forced_unique,
{
    DrawResult {
        success: false,
        department_name: None,
        department_id: None,
        specialty_type: None,
        message: Some(e.message()),
        forced_unique: false,
    }
}

/// The in-memory session state: the ledger of past draw records and the
/// round-scoped pairing tracker, owned as one value and passed by exclusive
/// reference to the draw operations.
#[derive(Debug)]
pub struct AppState {
    /// Append-only history; cleared only by `clear_records`.
    pub records: Vec<DrawRecord>,
    /// Round-scoped pairings; cleared only by `start_new_round`.
    pub round: RoundTracker,
}

/// The candidate list a draw on this state would pick from: the eligible
/// departments, or — when consecutive-avoidance empties them and exactly one
/// department survives without it — that sole survivor (the single-candidate
/// rule), or nothing. Only the consecutive-avoidance rule is ever bypassed;
/// the other exclusions always stand.
pub open spec fn spec_draw_candidates(
    state: AppState,
    departments: Seq<Department>,
    target_id: Seq<char>,
    sp: SpecialtyType,
) -> Seq<Department> {
    let last = spec_last_selected(state.records@, target_id, sp);
    let already = spec_selected_ids(state.round.entries_for(sp));
    let cross = spec_cross_ids(state.round.entries_for(sp), target_id);
    let full = spec_eligible_depts(departments, target_id, sp, last, already, cross);
    let wide = spec_eligible_depts(departments, target_id, sp, None, already, cross);
    if full.len() > 0 {
        full
    } else if wide.len() == 1 {
        wide
    } else {
        Seq::empty()
    }
}

/// Whether the single-candidate rule decides the draw on this state.
pub open spec fn spec_draw_forced(
    state: AppState,
    departments: Seq<Department>,
    target_id: Seq<char>,
    sp: SpecialtyType,
) -> bool {
    let last = spec_last_selected(state.records@, target_id, sp);
    let already = spec_selected_ids(state.round.entries_for(sp));
    let cross = spec_cross_ids(state.round.entries_for(sp), target_id);
    let full = spec_eligible_depts(departments, target_id, sp, last, already, cross);
    let wide = spec_eligible_depts(departments, target_id, sp, None, already, cross);
    full.len() == 0 && wide.len() == 1
}

/// The error a draw request on this state is rejected with, if any, in the
/// order the checks are made: category, target, round duplicate, candidates.
pub open spec fn spec_draw_error(
    state: AppState,
    departments: Seq<Department>,
    target_id: Seq<char>,
    specialty: Seq<char>,
) -> Option<DrawError> {
    match spec_parse_specialty(specialty) {
        None => Some(DrawError::InvalidCategory),
        Some(sp) => match spec_find_dept(departments, target_id) {
            None => Some(DrawError::UnknownTarget),
            Some(_) => if contains_id(spec_target_ids(state.round.entries_for(sp)), target_id) {
                Some(DrawError::DuplicateDrawInRound)
            } else if spec_draw_candidates(state, departments, target_id, sp).len() == 0 {
                Some(DrawError::NoCandidates)
            } else {
                None
            },
        },
    }
}

impl AppState {
    pub open spec fn wf(self) -> bool {
        self.round.wf()
    }

    pub fn new() -> (r: Self)
        ensures
            r.records@.len() == 0,
            r.round.pressure@.len() == 0,
            r.round.mechanical@.len() == 0,
            r.wf(),
    {
        AppState { records: Vec::new(), round: RoundTracker::new() }
    }

    /// Starts a new round: empties all round-scoped pairing lists and leaves
    /// the ledger untouched.
    pub fn start_new_round(&mut self)
        ensures
            final(self).records@ == old(self).records@,
            final(self).round.pressure@.len() == 0,
            final(self).round.mechanical@.len() == 0,
            final(self).wf(),
    {
        self.round.reset();
    }

    /// The round's pairings so far, as (target, selected) pairs per
    /// category.
    pub fn get_current_round_status(&self) -> (r: (Vec<(String, String)>, Vec<(String, String)>))
        ensures
            r.0@.len() == self.round.pressure@.len(),
            forall|j: int| 0 <= j < r.0@.len() ==> #[trigger] r.0@[j]
                == (self.round.pressure@[j].target_id, self.round.pressure@[j].selected_id),
            r.1@.len() == self.round.mechanical@.len(),
            forall|j: int| 0 <= j < r.1@.len() ==> #[trigger] r.1@[j]
                == (self.round.mechanical@[j].target_id, self.round.mechanical@[j].selected_id),
    {
        (
            self.round.status_pairs(SpecialtyType::Pressure),
            self.round.status_pairs(SpecialtyType::Mechanical),
        )
    }

    /// Empties the ledger: the explicit clear-all operation, the only way
    /// records are ever removed. The round state is untouched.
    pub fn clear_records(&mut self)
        ensures
            final(self).records@.len() == 0,
            final(self).round.pressure@ == old(self).round.pressure@,
            final(self).round.mechanical@ == old(self).round.mechanical@,
    {
        self.records = Vec::new();
    }

    /// The names of the departments a draw for (target, category) would
    /// pick from, for the rolling display; empty when the category is not
    /// recognized.
    pub fn get_candidate_departments(
        &self,
        departments: &Vec<Department>,
        target_department_id: &String,
        specialty_type: &String,
    ) -> (r: Vec<String>)
        ensures
            ({
                match spec_parse_specialty(specialty_type@) {
                    None => r@.len() == 0,
                    Some(sp) => r@ == spec_dept_names(
                        spec_draw_candidates(*self, departments@, target_department_id@, sp),
                    ),
                }
            }),
    {
        let sp = match parse_specialty(specialty_type.as_str()) {
            Some(sp) => sp,
            None => {
                return Vec::new();
            },
        };
        let candidates = self.draw_candidates(departments, target_department_id, sp);
        dept_names_of(&candidates)
    }

    /// The candidate departments of a draw on this state, with the
    /// single-candidate rule applied; the flag reports a forced choice.
    fn draw_candidates_flagged(
        &self,
        departments: &Vec<Department>,
        target_department_id: &String,
        sp: SpecialtyType,
    ) -> (r: (Vec<Department>, bool))
        ensures
            r.0@ == spec_draw_candidates(*self, departments@, target_department_id@, sp),
            r.1 == spec_draw_forced(*self, departments@, target_department_id@, sp),
    {
        let last = find_last_selected(&self.records, target_department_id.as_str(), sp);
        let already = self.round.already_selected(sp);
        let cross = self.round.cross_avoidance(target_department_id.as_str(), sp);
        let last_ref: Option<&str> = match &last {
            Some(s) => Some(s.as_str()),
            None => None,
        };
        proof {
            assert(crate::draw::spec_opt_id(last_ref)
                == spec_last_selected(self.records@, target_department_id@, sp));
        }
        let full = eligible_departments(
            departments,
            target_department_id.as_str(),
            sp,
            last_ref,
            &already,
            &cross,
        );
        if full.len() > 0 {
            (full, false)
        } else {
            let wide = eligible_departments(
                departments,
                target_department_id.as_str(),
                sp,
                None,
                &already,
                &cross,
            );
            if wide.len() == 1 {
                (wide, true)
            } else {
                (Vec::new(), false)
            }
        }
    }

    /// As `draw_candidates_flagged`, without the flag.
    fn draw_candidates(
        &self,
        departments: &Vec<Department>,
        target_department_id: &String,
        sp: SpecialtyType,
    ) -> (r: Vec<Department>)
        ensures
            r@ == spec_draw_candidates(*self, departments@, target_department_id@, sp),
    {
        let (candidates, _forced) = self.draw_candidates_flagged(
            departments,
            target_department_id,
            sp,
        );
        candidates
    }

    /// One complete draw for (target, category): validates the request,
    /// filters the catalog through every exclusion rule, applies the
    /// single-candidate rule, picks uniformly at random, and on success
    /// appends the pairing to the round tracker and a record to the ledger.
    /// On any rejection nothing changes and the result carries the error's
    /// message.
    pub fn execute_draw(
        &mut self,
        departments: &Vec<Department>,
        target_department_id: &String,
        specialty_type: &String,
    ) -> (r: DrawResult)
        requires
            old(self).wf(),
        ensures
            final(self).wf(),
            ({
                let err = spec_draw_error(
                    *old(self),
                    departments@,
                    target_department_id@,
                    specialty_type@,
                );
                match err {
                    Some(e) => {
                        &&& !r.success
                        &&& final(self).records@ == old(self).records@
                        &&& final(self).round.pressure@ == old(self).round.pressure@
                        &&& final(self).round.mechanical@ == old(self).round.mechanical@
                        &&& r.department_name is None
                        &&& r.department_id is None
                        &&& (r.message matches Some(m) && m@ == e.spec_message())
                        &&& !r.forced_unique
                    },
                    None => match spec_parse_specialty(specialty_type@) {
                        Some(sp) => {
                            let cands = spec_draw_candidates(
                                *old(self),
                                departments@,
                                target_department_id@,
                                sp,
                            );
                            let tname = match spec_find_dept(departments@, target_department_id@) {
                                Some(d) => d.name@,
                                None => Seq::empty(),
                            };
                            &&& r.success
                            &&& r.message is None
                            &&& r.forced_unique == spec_draw_forced(
                                *old(self),
                                departments@,
                                target_department_id@,
                                sp,
                            )
                            &&& (r.specialty_type matches Some(st) && st@ == specialty_type@)
                            &&& (r.department_id matches Some(did) && r.department_name matches Some(
                                dname,
                            ) && {
                                &&& exists|i: int|
                                    0 <= i < cands.len() && (#[trigger] cands[i]).id@ == did@
                                        && cands[i].name@ == dname@
                                &&& did@ != target_department_id@
                                &&& !contains_id(
                                    spec_selected_ids(old(self).round.entries_for(sp)),
                                    did@,
                                )
                                &&& final(self).records@.len() == old(self).records@.len() + 1
                                &&& final(self).records@.drop_last() == old(self).records@
                                &&& final(self).records@.last().target_department_id@
                                    == target_department_id@
                                &&& final(self).records@.last().target_department_name@ == tname
                                &&& final(self).records@.last().specialty_type == sp
                                &&& final(self).records@.last().selected_specialist_id@ == did@
                                &&& final(self).records@.last().selected_specialist_name@ == dname@
                                &&& final(self).records@.last().selected_from_department_id@ == did@
                                &&& final(self).round.entries_for(sp).len() == old(self).round.entries_for(
                                    sp,
                                ).len() + 1
                                &&& final(self).round.entries_for(sp).drop_last() == old(
                                    self,
                                ).round.entries_for(sp)
                                &&& final(self).round.entries_for(sp).last().target_id@
                                    == target_department_id@
                                &&& final(self).round.entries_for(sp).last().selected_id@ == did@
                                &&& final(self).round.entries_for(sp).last().selected_group_id@
                                    == did@
                                &&& final(self).round.entries_for(other_category(sp)) == old(
                                    self,
                                ).round.entries_for(other_category(sp))
                            })
                        },
                        None => false,
                    },
                }
            }),
    {
        let sp = match parse_specialty(specialty_type.as_str()) {
            Some(sp) => sp,
            None => {
                return fail_result(DrawError::InvalidCategory);
            },
        };
        let target = match find_department(departments, target_department_id.as_str()) {
            Some(d) => d,
            None => {
                return fail_result(DrawError::UnknownTarget);
            },
        };
        if self.round.has_target_drawn(target_department_id.as_str(), sp) {
            return fail_result(DrawError::DuplicateDrawInRound);
        }
        let (candidates, forced) = self.draw_candidates_flagged(
            departments,
            target_department_id,
            sp,
        );
        if candidates.len() == 0 {
            return fail_result(DrawError::NoCandidates);
        }
        let i = pick_index(candidates.len());
        let selected = candidates[i].clone();
        proof {
            let last = spec_last_selected(self.records@, target_department_id@, sp);
            let already = spec_selected_ids(self.round.entries_for(sp));
            let cross = spec_cross_ids(self.round.entries_for(sp), target_department_id@);
            lemma_eligible_depts_members(
                departments@,
                target_department_id@,
                sp,
                last,
                already,
                cross,
            );
            lemma_eligible_depts_members(
                departments@,
                target_department_id@,
                sp,
                None,
                already,
                cross,
            );
            assert(spec_dept_eligible(candidates@[i as int], target_department_id@, sp, None, already, cross)
                || spec_dept_eligible(candidates@[i as int], target_department_id@, sp, last, already, cross));
        }
        let recorded = self.round.record(
            target_department_id.as_str(),
            selected.id.as_str(),
            selected.id.as_str(),
            sp,
        );
        proof {
            assert(recorded);
        }
        let rec = crate::models::DrawRecord::new(
            target_department_id.as_str(),
            target.name.as_str(),
            sp,
            selected.id.as_str(),
            selected.name.as_str(),
            selected.id.as_str(),
            selected.name.as_str(),
        );
        self.records.push(rec);
        DrawResult {
            success: true,
            department_name: Some(selected.name.clone()),
            department_id: Some(selected.id.clone()),
            specialty_type: Some(specialty_type.clone()),
            message: None,
            forced_unique: forced,
        }
    }
}

impl Default for AppState {
    fn default() -> (r: Self)
        ensures
            r.records@.len() == 0,
            r.round.pressure@.len() == 0,
            r.round.mechanical@.len() == 0,
            r.wf(),
    {
        AppState::new()
    }
}

/// The names of the given departments, in order.
pub fn dept_names_of(departments: &Vec<Department>) -> (r: Vec<String>)
    ensures
        r@ == spec_dept_names(departments@),
{
    let mut r: Vec<String> = Vec::new();
    let mut i: usize = 0;
    while i < departments.len()
        invariant
            i <= departments@.len(),
            r@.len() == i,
            forall|j: int| 0 <= j < i ==> #[trigger] r@[j] == departments@[j].name,
        decreases departments@.len() - i,
    {
        r.push(departments[i].name.clone());
        i = i + 1;
    }
    proof {
        assert(r@ =~= spec_dept_names(departments@));
    }
    r
}


/// Law: round-local cross-avoidance for departments. If an entry of the
/// current round sent the department `target` to inspect some department,
/// that department is not eligible to inspect `target` in the same round.
pub proof fn lemma_dept_cross_avoidance(
    entries: Seq<crate::round::RoundEntry>,
    k: int,
    depts: Seq<Department>,
    target: Seq<char>,
    sp: SpecialtyType,
    last: Option<Seq<char>>,
    already: Seq<String>,
)
    requires
        0 <= k < entries.len(),
        entries[k].selected_group_id@ == target,
    ensures
        forall|i: int|
            0 <= i < spec_eligible_depts(
                depts,
                target,
                sp,
                last,
                already,
                spec_cross_ids(entries, target),
            ).len() ==> (#[trigger] spec_eligible_depts(
                depts,
                target,
                sp,
                last,
                already,
                spec_cross_ids(entries, target),
            )[i]).id@ != entries[k].target_id@,
{
    let cross = spec_cross_ids(entries, target);
    crate::round::lemma_cross_ids_complete(entries, target, k);
    lemma_eligible_depts_members(depts, target, sp, last, already, cross);
}

/// Law: the single-candidate rule fires only for a sole survivor, also on
/// the department path. With distinct catalog ids, if consecutive-avoidance
/// empties the eligible set while the set without it is non-empty, the wider
/// set holds exactly one department — the most recent winner — whom the
/// bypass reselects.
pub proof fn lemma_dept_forced_reselection_only_sole(
    depts: Seq<Department>,
    target: Seq<char>,
    sp: SpecialtyType,
    last_id: Seq<char>,
    already: Seq<String>,
    cross: Seq<String>,
)
    requires
        forall|i: int, j: int|
            0 <= i < j < depts.len() ==> #[trigger] depts[i].id@ != #[trigger] depts[j].id@,
        spec_eligible_depts(depts, target, sp, Some(last_id), already, cross).len() == 0,
        spec_eligible_depts(depts, target, sp, None, already, cross).len() > 0,
    ensures
        spec_eligible_depts(depts, target, sp, None, already, cross).len() == 1,
        spec_eligible_depts(depts, target, sp, None, already, cross)[0].id@ == last_id,
    decreases depts.len(),
{
    reveal(Seq::filter);
    let fpred = |d: Department| spec_dept_eligible(d, target, sp, Some(last_id), already, cross);
    let wpred = |d: Department| spec_dept_eligible(d, target, sp, None, already, cross);
    let wide = depts.filter(wpred);
    if depts.len() == 0 {
        assert(wide.len() == 0);
    } else {
        let rest = depts.drop_last();
        let x = depts.last();
        assert(depts.filter(fpred) == if fpred(x) {
            rest.filter(fpred).push(x)
        } else {
            rest.filter(fpred)
        });
        assert(wide == if wpred(x) {
            rest.filter(wpred).push(x)
        } else {
            rest.filter(wpred)
        });
        assert(!fpred(x));
        assert(rest.filter(fpred).len() == 0);
        if wpred(x) {
            assert(x.id@ == last_id);
            if rest.filter(wpred).len() > 0 {
                lemma_dept_forced_reselection_only_sole(rest, target, sp, last_id, already, cross);
                let y = rest.filter(wpred)[0];
                assert(y.id@ == last_id);
                rest.lemma_filter_contains_rev(wpred, y);
                let k = choose|k: int| 0 <= k < rest.len() && rest[k] == y;
                assert(rest[k] == depts[k]);
                // Two distinct catalog entries would both carry the last
                // winner's id, contradicting distinctness.
                assert(depts[k].id@ != depts[depts.len() - 1].id@);
                assert(false);
            }
            assert(wide =~= rest.filter(wpred).push(x));
        } else {
            assert(wide == rest.filter(wpred));
            lemma_dept_forced_reselection_only_sole(rest, target, sp, last_id, already, cross);
        }
    }
}

} // verus!
