//! The draw coordinator behind the main panel: which draw a selected
//! department needs, starting and stopping the wheels, and committing
//! results when a wheel stops. Rendering stays outside; this holds the
//! decisions.

use vstd::prelude::*;
use crate::animation::{
    spec_is_initial, spec_started, spec_step, spec_stop_requested, AnimationPhase, AnimationState,
    MAX_CANDIDATES,
};
use crate::draw::{
    find_last_selected, names_of, spec_dept_name, spec_eligible, spec_eligible_set,
    spec_last_selected, spec_names, DrawEngine,
};
use crate::helpers::contains_id;
use crate::models::{Department, DrawRecord, QualitySpecialist, SpecialtyType};
use crate::round::{spec_cross_ids, spec_selected_ids, spec_target_ids, RoundTracker};
use crate::session::{find_department, spec_find_dept};

verus! {

/// Which wheels a draw for the selected department spins.
#[derive(Debug, Clone, Copy, PartialEq, Eq, Structural)]
pub enum DrawType {
    PressureOnly,
    MechanicalOnly,
    Both,
}

/// The specialty currently being drawn, when a single wheel spins.
#[derive(Debug, Clone, Copy, PartialEq, Eq, Structural)]
pub enum CurrentDrawing {
    Pressure,
    Mechanical,
}

/// The draw a department of this category needs.
pub open spec fn spec_draw_type_of(d: Department) -> DrawType {
    match d.department_type {
        crate::models::DepartmentType::Pressure => DrawType::PressureOnly,
        crate::models::DepartmentType::Mechanical => DrawType::MechanicalOnly,
        crate::models::DepartmentType::Comprehensive => DrawType::Both,
    }
}

/// The candidate specialists a wheel for (target, specialty) rolls over:
/// the eligible set, or the sole survivor of the single-candidate rule, or
/// nothing.
pub open spec fn spec_bypass_set(
    round: RoundTracker,
    records: Seq<DrawRecord>,
    specialists: Seq<QualitySpecialist>,
    dept_id: Seq<char>,
    sp: SpecialtyType,
) -> Seq<QualitySpecialist> {
    let last = spec_last_selected(records, dept_id, sp);
    let already = spec_selected_ids(round.entries_for(sp));
    let cross = spec_cross_ids(round.entries_for(sp), dept_id);
    let full = spec_eligible_set(specialists, dept_id, sp, last, already, cross);
    let wide = spec_eligible_set(specialists, dept_id, sp, None, already, cross);
    if full.len() > 0 {
        full
    } else if wide.len() == 1 {
        wide
    } else {
        Seq::empty()
    }
}

/// The names on that wheel.
pub open spec fn spec_bypass_names(
    round: RoundTracker,
    records: Seq<DrawRecord>,
    specialists: Seq<QualitySpecialist>,
    dept_id: Seq<char>,
    sp: SpecialtyType,
) -> Seq<String> {
    spec_names(spec_bypass_set(round, records, specialists, dept_id, sp))
}

/// Whether the single-candidate rule decides that wheel.
pub open spec fn spec_bypass_forced(
    round: RoundTracker,
    records: Seq<DrawRecord>,
    specialists: Seq<QualitySpecialist>,
    dept_id: Seq<char>,
    sp: SpecialtyType,
) -> bool {
    let last = spec_last_selected(records, dept_id, sp);
    let already = spec_selected_ids(round.entries_for(sp));
    let cross = spec_cross_ids(round.entries_for(sp), dept_id);
    let full = spec_eligible_set(specialists, dept_id, sp, last, already, cross);
    let wide = spec_eligible_set(specialists, dept_id, sp, None, already, cross);
    full.len() == 0 && wide.len() == 1
}

/// The wheel's candidate list never exceeds the catalog.
proof fn lemma_bypass_names_len(
    round: RoundTracker,
    records: Seq<DrawRecord>,
    specialists: Seq<QualitySpecialist>,
    dept_id: Seq<char>,
    sp: SpecialtyType,
)
    ensures
        spec_bypass_names(round, records, specialists, dept_id, sp).len() <= specialists.len(),
{
    let last = spec_last_selected(records, dept_id, sp);
    let already = spec_selected_ids(round.entries_for(sp));
    let cross = spec_cross_ids(round.entries_for(sp), dept_id);
    specialists.lemma_filter_len(
        |s: QualitySpecialist| spec_eligible(s, dept_id, sp, last, already, cross),
    );
    specialists.lemma_filter_len(
        |s: QualitySpecialist| spec_eligible(s, dept_id, sp, None, already, cross),
    );
}

/// The coordinator of the main draw view.
#[derive(Debug)]
pub struct MainPanel {
    /// The department picked to be inspected.
    pub selected_department_id: Option<String>,
    pub pressure_animation: AnimationState,
    pub mechanical_animation: AnimationState,
    /// (name, department) of the committed pressure pick, once stopped.
    pub pressure_result: Option<(String, String)>,
    pub mechanical_result: Option<(String, String)>,
    pub status_message: String,
    pub is_drawing: bool,
    pub current_drawing: Option<CurrentDrawing>,
    /// Pairings of the current round, fed by finished draws.
    pub round: RoundTracker,
}

impl MainPanel {
    pub open spec fn wf(self) -> bool {
        &&& self.pressure_animation.wf()
        &&& self.mechanical_animation.wf()
        &&& self.round.wf()
    }

    /// The draw type of the currently selected department, if one is
    /// selected and present in the catalog.
    pub open spec fn spec_get_draw_type(self, departments: Seq<Department>) -> Option<DrawType> {
        match self.selected_department_id {
            None => None,
            Some(id) => match spec_find_dept(departments, id@) {
                None => None,
                Some(d) => Some(spec_draw_type_of(d)),
            },
        }
    }

    pub fn get_draw_type(&self, departments: &Vec<Department>) -> (r: Option<DrawType>)
        ensures
            r == self.spec_get_draw_type(departments@),
    {
        let id = match &self.selected_department_id {
            Some(id) => id,
            None => {
                return None;
            },
        };
        match find_department(departments, id.as_str()) {
            Some(d) => Some(
                match d.department_type {
                    crate::models::DepartmentType::Pressure => DrawType::PressureOnly,
                    crate::models::DepartmentType::Mechanical => DrawType::MechanicalOnly,
                    crate::models::DepartmentType::Comprehensive => DrawType::Both,
                },
            ),
            None => None,
        }
    }

    /// Requests the stop of both wheels.
    pub fn stop_draw(&mut self)
        requires
            old(self).wf(),
        ensures
            final(self).wf(),
            final(self).pressure_animation == spec_stop_requested(old(self).pressure_animation),
            final(self).mechanical_animation == spec_stop_requested(old(self).mechanical_animation),
            final(self).status_message@ == "减速中..."@,
            final(self).selected_department_id == old(self).selected_department_id,
            final(self).pressure_result == old(self).pressure_result,
            final(self).mechanical_result == old(self).mechanical_result,
            final(self).is_drawing == old(self).is_drawing,
            final(self).current_drawing == old(self).current_drawing,
            final(self).round.pressure@ == old(self).round.pressure@,
            final(self).round.mechanical@ == old(self).round.mechanical@,
    {
        self.pressure_animation.request_stop();
        self.mechanical_animation.request_stop();
        self.status_message = "减速中...".to_owned();
    }

    /// The rolling name list for one wheel, with the single-candidate rule.
    fn rolling_names_with_bypass(
        &self,
        specialists: &Vec<QualitySpecialist>,
        dept_id: &String,
        sp: SpecialtyType,
        records: &Vec<DrawRecord>,
    ) -> (r: (Vec<String>, bool))
        ensures
            r.0@ == spec_bypass_names(self.round, records@, specialists@, dept_id@, sp),
            r.1 == spec_bypass_forced(self.round, records@, specialists@, dept_id@, sp),
    {
        let last = find_last_selected(records, dept_id.as_str(), sp);
        let already = self.round.already_selected(sp);
        let cross = self.round.cross_avoidance(dept_id.as_str(), sp);
        let last_ref: Option<&str> = match &last {
            Some(s) => Some(s.as_str()),
            None => None,
        };
        proof {
            assert(crate::draw::spec_opt_id(last_ref)
                == spec_last_selected(records@, dept_id@, sp));
        }
        let (cands, forced) = DrawEngine::candidates_with_bypass(
            specialists,
            dept_id.as_str(),
            sp,
            last_ref,
            &already,
            &cross,
        );
        (names_of(&cands), forced)
    }

    /// Starts the draw for the selected department: resets results, builds
    /// each needed wheel's candidate list (with consecutive avoidance, the
    /// round exclusions and the single-candidate rule) and spins it.
    pub fn start_draw(
        &mut self,
        specialists: &Vec<QualitySpecialist>,
        departments: &Vec<Department>,
        records: &Vec<DrawRecord>,
    )
        requires
            old(self).wf(),
            specialists@.len() <= MAX_CANDIDATES,
        ensures
            final(self).wf(),
            final(self).round.pressure@ == old(self).round.pressure@,
            final(self).round.mechanical@ == old(self).round.mechanical@,
            final(self).selected_department_id == old(self).selected_department_id,
            old(self).selected_department_id is None ==> {
                &&& final(self).pressure_animation == old(self).pressure_animation
                &&& final(self).mechanical_animation == old(self).mechanical_animation
                &&& final(self).pressure_result == old(self).pressure_result
                &&& final(self).mechanical_result == old(self).mechanical_result
                &&& final(self).is_drawing == old(self).is_drawing
                &&& final(self).current_drawing == old(self).current_drawing
                &&& final(self).status_message@ == "请先选择被检查部门"@
            },
            old(self).selected_department_id is Some && old(self).spec_get_draw_type(departments@)
                is None ==> *final(self) == *old(self),
            old(self).selected_department_id matches Some(id)
                ==> (old(self).spec_get_draw_type(departments@) matches Some(dt) ==> ({
                let pn = spec_bypass_names(
                    old(self).round,
                    records@,
                    specialists@,
                    id@,
                    SpecialtyType::Pressure,
                );
                let mn = spec_bypass_names(
                    old(self).round,
                    records@,
                    specialists@,
                    id@,
                    SpecialtyType::Mechanical,
                );
                &&& final(self).pressure_result is None
                &&& final(self).mechanical_result is None
                &&& (dt == DrawType::PressureOnly ==> {
                    &&& (pn.len() > 0 ==> spec_started(final(self).pressure_animation, pn)
                        && final(self).is_drawing && final(self).current_drawing == Some(
                        CurrentDrawing::Pressure,
                    ) && final(self).status_message@ == (if spec_bypass_forced(
                        old(self).round,
                        records@,
                        specialists@,
                        id@,
                        SpecialtyType::Pressure,
                    ) {
                        "正在抽取承压类人员 (唯一候选)..."@
                    } else {
                        "正在抽取承压类人员..."@
                    }))
                    &&& (pn.len() == 0 ==> spec_is_initial(final(self).pressure_animation)
                        && !final(self).is_drawing && final(self).status_message@
                        == "没有可抽取的承压类人员！"@)
                    &&& spec_is_initial(final(self).mechanical_animation)
                })
                &&& (dt == DrawType::MechanicalOnly ==> {
                    &&& (mn.len() > 0 ==> spec_started(final(self).mechanical_animation, mn)
                        && final(self).is_drawing && final(self).current_drawing == Some(
                        CurrentDrawing::Mechanical,
                    ) && final(self).status_message@ == (if spec_bypass_forced(
                        old(self).round,
                        records@,
                        specialists@,
                        id@,
                        SpecialtyType::Mechanical,
                    ) {
                        "正在抽取机电类人员 (唯一候选)..."@
                    } else {
                        "正在抽取机电类人员..."@
                    }))
                    &&& (mn.len() == 0 ==> spec_is_initial(final(self).mechanical_animation)
                        && !final(self).is_drawing && final(self).status_message@
                        == "没有可抽取的机电类人员！"@)
                    &&& spec_is_initial(final(self).pressure_animation)
                })
                &&& (dt == DrawType::Both ==> {
                    &&& (pn.len() > 0 ==> spec_started(final(self).pressure_animation, pn))
                    &&& (pn.len() == 0 ==> spec_is_initial(final(self).pressure_animation))
                    &&& (mn.len() > 0 ==> spec_started(final(self).mechanical_animation, mn))
                    &&& (mn.len() == 0 ==> spec_is_initial(final(self).mechanical_animation))
                    &&& final(self).is_drawing == (pn.len() > 0 || mn.len() > 0)
                    &&& (pn.len() > 0 || mn.len() > 0 ==> final(self).current_drawing is None
                        && final(self).status_message@ == (if spec_bypass_forced(
                        old(self).round,
                        records@,
                        specialists@,
                        id@,
                        SpecialtyType::Pressure,
                    ) || spec_bypass_forced(
                        old(self).round,
                        records@,
                        specialists@,
                        id@,
                        SpecialtyType::Mechanical,
                    ) {
                        "正在抽取... (包含唯一候选岗位)"@
                    } else {
                        "正在抽取..."@
                    }))
                    &&& (pn.len() == 0 && mn.len() == 0 ==> final(self).status_message@
                        == "没有可抽取的人员！"@)
                })
            })),
    {
        let dept_id = match &self.selected_department_id {
            Some(id) => id.clone(),
            None => {
                self.status_message = "请先选择被检查部门".to_owned();
                return;
            },
        };
        let draw_type = match self.get_draw_type(departments) {
            Some(t) => t,
            None => {
                return;
            },
        };
        self.pressure_result = None;
        self.mechanical_result = None;
        self.pressure_animation.reset();
        self.mechanical_animation.reset();
        self.is_drawing = true;
        proof {
            lemma_bypass_names_len(
                self.round,
                records@,
                specialists@,
                dept_id@,
                SpecialtyType::Pressure,
            );
            lemma_bypass_names_len(
                self.round,
                records@,
                specialists@,
                dept_id@,
                SpecialtyType::Mechanical,
            );
        }
        match draw_type {
            DrawType::PressureOnly => {
                let (names, forced) = self.rolling_names_with_bypass(
                    specialists,
                    &dept_id,
                    SpecialtyType::Pressure,
                    records,
                );
                if names.len() == 0 {
                    self.status_message = "没有可抽取的承压类人员！".to_owned();
                    self.is_drawing = false;
                    return;
                }
                self.pressure_animation.start(names);
                self.current_drawing = Some(CurrentDrawing::Pressure);
                self.status_message = if forced {
                    "正在抽取承压类人员 (唯一候选)...".to_owned()
                } else {
                    "正在抽取承压类人员...".to_owned()
                };
            },
            DrawType::MechanicalOnly => {
                let (names, forced) = self.rolling_names_with_bypass(
                    specialists,
                    &dept_id,
                    SpecialtyType::Mechanical,
                    records,
                );
                if names.len() == 0 {
                    self.status_message = "没有可抽取的机电类人员！".to_owned();
                    self.is_drawing = false;
                    return;
                }
                self.mechanical_animation.start(names);
                self.current_drawing = Some(CurrentDrawing::Mechanical);
                self.status_message = if forced {
                    "正在抽取机电类人员 (唯一候选)...".to_owned()
                } else {
                    "正在抽取机电类人员...".to_owned()
                };
            },
            DrawType::Both => {
                let (p_names, p_forced) = self.rolling_names_with_bypass(
                    specialists,
                    &dept_id,
                    SpecialtyType::Pressure,
                    records,
                );
                let (m_names, m_forced) = self.rolling_names_with_bypass(
                    specialists,
                    &dept_id,
                    SpecialtyType::Mechanical,
                    records,
                );
                if p_names.len() == 0 && m_names.len() == 0 {
                    self.status_message = "没有可抽取的人员！".to_owned();
                    self.is_drawing = false;
                    return;
                }
                if p_names.len() > 0 {
                    self.pressure_animation.start(p_names);
                }
                if m_names.len() > 0 {
                    self.mechanical_animation.start(m_names);
                }
                self.current_drawing = None;
                self.status_message = if p_forced || m_forced {
                    "正在抽取... (包含唯一候选岗位)".to_owned()
                } else {
                    "正在抽取...".to_owned()
                };
            },
        }
    }

    /// One UI tick: advances both wheels by `dt_ms` exactly as the
    /// transition law says, and when a wheel has just stopped, commits its
    /// result — looks the winner up in the catalog, stores the (name,
    /// department) pair, records the pairing into the round tracker, and
    /// returns the new ledger records for the caller to persist.
    pub fn update(
        &mut self,
        specialists: &Vec<QualitySpecialist>,
        departments: &Vec<Department>,
        dt_ms: u64,
    ) -> (r: Vec<DrawRecord>)
        requires
            old(self).wf(),
        ensures
            final(self).wf(),
            final(self).pressure_animation == spec_step(old(self).pressure_animation, dt_ms),
            final(self).mechanical_animation == spec_step(old(self).mechanical_animation, dt_ms),
            final(self).selected_department_id == old(self).selected_department_id,
            r@.len() <= 2,
            forall|k1: int, k2: int|
                0 <= k1 < r@.len() && 0 <= k2 < r@.len() && (#[trigger] r@[k1]).specialty_type
                    == (#[trigger] r@[k2]).specialty_type ==> k1 == k2,
            ({
                let stepped = spec_step(old(self).pressure_animation, dt_ms);
                !spec_commits_result(stepped, old(self).pressure_result, specialists@)
                    ==> final(self).pressure_result == old(self).pressure_result
            }),
            ({
                let stepped = spec_step(old(self).pressure_animation, dt_ms);
                !spec_commits_record(
                    stepped,
                    old(self).pressure_result,
                    specialists@,
                    departments@,
                    old(self).selected_department_id,
                ) ==> (forall|k: int|
                    0 <= k < r@.len() ==> !((#[trigger] r@[k]).specialty_type is Pressure))
                    && final(self).round.pressure@ == old(self).round.pressure@
            }),
            ({
                let stepped = spec_step(old(self).pressure_animation, dt_ms);
                spec_commits_result(stepped, old(self).pressure_result, specialists@)
                    ==> (stepped.final_result matches Some(name)
                    ==> (spec_find_specialist(specialists@, name@) matches Some(s)
                    ==> (final(self).pressure_result matches Some(p) && p.0 == name && p.1@
                        == spec_dept_name(departments@, s.department_id@))))
            }),
            ({
                let stepped = spec_step(old(self).pressure_animation, dt_ms);
                spec_commits_record(
                    stepped,
                    old(self).pressure_result,
                    specialists@,
                    departments@,
                    old(self).selected_department_id,
                ) ==> (stepped.final_result matches Some(name)
                    ==> (spec_find_specialist(specialists@, name@) matches Some(s)
                    ==> (old(self).selected_department_id matches Some(tid)
                    ==> (spec_find_dept(departments@, tid@) matches Some(td) ==> {
                    &&& exists|k: int|
                        0 <= k < r@.len() && (#[trigger] r@[k]).specialty_type is Pressure
                            && r@[k].target_department_id@ == tid@
                            && r@[k].target_department_name@ == td.name@
                            && r@[k].selected_specialist_id@ == s.id@
                            && r@[k].selected_specialist_name@ == s.name@
                            && r@[k].selected_from_department_id@ == s.department_id@
                            && r@[k].selected_from_department_name@ == spec_dept_name(
                            departments@,
                            s.department_id@,
                        )
                    &&& ({
                        let oldp = old(self).round.pressure@;
                        if !contains_id(spec_target_ids(oldp), tid@) && !contains_id(
                            spec_selected_ids(oldp),
                            s.id@,
                        ) {
                            &&& final(self).round.pressure@.len() == oldp.len() + 1
                            &&& final(self).round.pressure@.drop_last() == oldp
                            &&& final(self).round.pressure@.last().target_id@ == tid@
                            &&& final(self).round.pressure@.last().selected_id@ == s.id@
                            &&& final(self).round.pressure@.last().selected_group_id@
                                == s.department_id@
                        } else {
                            final(self).round.pressure@ == oldp
                        }
                    })
                }))))
            }),
            ({
                let stepped = spec_step(old(self).mechanical_animation, dt_ms);
                !spec_commits_result(stepped, old(self).mechanical_result, specialists@)
                    ==> final(self).mechanical_result == old(self).mechanical_result
            }),
            ({
                let stepped = spec_step(old(self).mechanical_animation, dt_ms);
                !spec_commits_record(
                    stepped,
                    old(self).mechanical_result,
                    specialists@,
                    departments@,
                    old(self).selected_department_id,
                ) ==> (forall|k: int|
                    0 <= k < r@.len() ==> !((#[trigger] r@[k]).specialty_type is Mechanical))
                    && final(self).round.mechanical@ == old(self).round.mechanical@
            }),
            ({
                let stepped = spec_step(old(self).mechanical_animation, dt_ms);
                spec_commits_result(stepped, old(self).mechanical_result, specialists@)
                    ==> (stepped.final_result matches Some(name)
                    ==> (spec_find_specialist(specialists@, name@) matches Some(s)
                    ==> (final(self).mechanical_result matches Some(p) && p.0 == name && p.1@
                        == spec_dept_name(departments@, s.department_id@))))
            }),
            ({
                let stepped = spec_step(old(self).mechanical_animation, dt_ms);
                spec_commits_record(
                    stepped,
                    old(self).mechanical_result,
                    specialists@,
                    departments@,
                    old(self).selected_department_id,
                ) ==> (stepped.final_result matches Some(name)
                    ==> (spec_find_specialist(specialists@, name@) matches Some(s)
                    ==> (old(self).selected_department_id matches Some(tid)
                    ==> (spec_find_dept(departments@, tid@) matches Some(td) ==> {
                    &&& exists|k: int|
                        0 <= k < r@.len() && (#[trigger] r@[k]).specialty_type is Mechanical
                            && r@[k].target_department_id@ == tid@
                            && r@[k].target_department_name@ == td.name@
                            && r@[k].selected_specialist_id@ == s.id@
                            && r@[k].selected_specialist_name@ == s.name@
                            && r@[k].selected_from_department_id@ == s.department_id@
                            && r@[k].selected_from_department_name@ == spec_dept_name(
                            departments@,
                            s.department_id@,
                        )
                    &&& ({
                        let oldm = old(self).round.mechanical@;
                        if !contains_id(spec_target_ids(oldm), tid@) && !contains_id(
                            spec_selected_ids(oldm),
                            s.id@,
                        ) {
                            &&& final(self).round.mechanical@.len() == oldm.len() + 1
                            &&& final(self).round.mechanical@.drop_last() == oldm
                            &&& final(self).round.mechanical@.last().target_id@ == tid@
                            &&& final(self).round.mechanical@.last().selected_id@ == s.id@
                            &&& final(self).round.mechanical@.last().selected_group_id@
                                == s.department_id@
                        } else {
                            final(self).round.mechanical@ == oldm
                        }
                    })
                }))))
            }),
    {
        let mut new_records: Vec<DrawRecord> = Vec::new();
        self.pressure_animation.update(dt_ms);
        self.mechanical_animation.update(dt_ms);
        if matches!(self.pressure_animation.phase, AnimationPhase::Stopped)
            && self.pressure_result.is_none() {
            let name = match &self.pressure_animation.final_result {
                Some(n) => Some(n.clone()),
                None => None,
            };
            if let Some(name) = name {
                if let Some(specialist) = find_specialist_by_name(specialists, name.as_str()) {
                    let dept_name = crate::draw::dept_name_of(
                        departments,
                        specialist.department_id.as_str(),
                    );
                    self.pressure_result = Some((name, dept_name.clone()));
                    let tid = match &self.selected_department_id {
                        Some(t) => Some(t.clone()),
                        None => None,
                    };
                    if let Some(tid) = tid {
                        if let Some(target_dept) = find_department(departments, tid.as_str()) {
                            let record = DrawRecord::new(
                                tid.as_str(),
                                target_dept.name.as_str(),
                                SpecialtyType::Pressure,
                                specialist.id.as_str(),
                                specialist.name.as_str(),
                                specialist.department_id.as_str(),
                                dept_name.as_str(),
                            );
                            let _ = self.round.record(
                                tid.as_str(),
                                specialist.id.as_str(),
                                specialist.department_id.as_str(),
                                SpecialtyType::Pressure,
                            );
                            new_records.push(record);
                            proof {
                                let k = new_records@.len() - 1;
                                assert(new_records@[k].specialty_type == SpecialtyType::Pressure);
                                assert(new_records@[k].target_department_id@ == tid@);
                                assert(new_records@[k].selected_specialist_name@ == specialist.name@);
                            }
                        }
                    }
                }
            }
        }
        if matches!(self.mechanical_animation.phase, AnimationPhase::Stopped)
            && self.mechanical_result.is_none() {
            let name = match &self.mechanical_animation.final_result {
                Some(n) => Some(n.clone()),
                None => None,
            };
            if let Some(name) = name {
                if let Some(specialist) = find_specialist_by_name(specialists, name.as_str()) {
                    let dept_name = crate::draw::dept_name_of(
                        departments,
                        specialist.department_id.as_str(),
                    );
                    self.mechanical_result = Some((name, dept_name.clone()));
                    let tid = match &self.selected_department_id {
                        Some(t) => Some(t.clone()),
                        None => None,
                    };
                    if let Some(tid) = tid {
                        if let Some(target_dept) = find_department(departments, tid.as_str()) {
                            let record = DrawRecord::new(
                                tid.as_str(),
                                target_dept.name.as_str(),
                                SpecialtyType::Mechanical,
                                specialist.id.as_str(),
                                specialist.name.as_str(),
                                specialist.department_id.as_str(),
                                dept_name.as_str(),
                            );
                            let _ = self.round.record(
                                tid.as_str(),
                                specialist.id.as_str(),
                                specialist.department_id.as_str(),
                                SpecialtyType::Mechanical,
                            );
                            new_records.push(record);
                            proof {
                                let k = new_records@.len() - 1;
                                assert(new_records@[k].specialty_type == SpecialtyType::Mechanical);
                                assert(new_records@[k].target_department_id@ == tid@);
                                assert(new_records@[k].selected_specialist_name@ == specialist.name@);
                            }
                        }
                    }
                }
            }
        }
        let pressure_done = !self.pressure_animation.is_running();
        let mechanical_done = !self.mechanical_animation.is_running();
        if self.is_drawing && pressure_done && mechanical_done {
            self.is_drawing = false;
            self.status_message = "抽签完成！".to_owned();
        }
        new_records
    }
}

impl Default for MainPanel {
    fn default() -> (r: Self)
        ensures
            r.selected_department_id is None,
            spec_is_initial(r.pressure_animation),
            spec_is_initial(r.mechanical_animation),
            r.pressure_result is None,
            r.mechanical_result is None,
            r.status_message@ == "请选择被检查部门，然后点击开始抽签"@,
            !r.is_drawing,
            r.current_drawing is None,
            r.round.pressure@.len() == 0,
            r.round.mechanical@.len() == 0,
            r.wf(),
    {
        MainPanel {
            selected_department_id: None,
            pressure_animation: AnimationState::default(),
            mechanical_animation: AnimationState::default(),
            pressure_result: None,
            mechanical_result: None,
            status_message: "请选择被检查部门，然后点击开始抽签".to_owned(),
            is_drawing: false,
            current_drawing: None,
            round: RoundTracker::new(),
        }
    }
}

/// The first specialist in the catalog bearing this name.
pub open spec fn spec_find_specialist(
    specialists: Seq<QualitySpecialist>,
    name: Seq<char>,
) -> Option<QualitySpecialist>
    decreases specialists.len(),
{
    if specialists.len() == 0 {
        None
    } else if specialists[0].name@ == name {
        Some(specialists[0])
    } else {
        spec_find_specialist(specialists.skip(1), name)
    }
}

/// Finds the first specialist in the catalog bearing this name.
pub fn find_specialist_by_name(
    specialists: &Vec<QualitySpecialist>,
    name: &str,
) -> (r: Option<QualitySpecialist>)
    ensures
        ({
            let f = spec_find_specialist(specialists@, name@);
            match r {
                Some(s) => f == Some(s),
                None => f is None,
            }
        }),
{
    let mut i: usize = 0;
    proof {
        assert(specialists@.skip(0) =~= specialists@);
    }
    while i < specialists.len()
        invariant
            i <= specialists@.len(),
            spec_find_specialist(specialists@, name@)
                == spec_find_specialist(specialists@.skip(i as int), name@),
        decreases specialists@.len() - i,
    {
        proof {
            assert(specialists@.skip(i as int)[0] == specialists@[i as int]);
            assert(specialists@.skip(i as int).skip(1) =~= specialists@.skip(i + 1));
        }
        if crate::helpers::str_eq(specialists[i].name.as_str(), name) {
            return Some(specialists[i].clone());
        }
        i = i + 1;
    }
    proof {
        assert(specialists@.skip(specialists@.len() as int).len() == 0);
    }
    None
}

/// Whether one tick commits a (name, department) result for a wheel: the
/// wheel is stopped on a name borne by some catalog specialist and no
/// result has been committed for it yet.
pub open spec fn spec_commits_result(
    stepped: AnimationState,
    prior_result: Option<(String, String)>,
    specialists: Seq<QualitySpecialist>,
) -> bool {
    &&& stepped.phase is Stopped
    &&& prior_result is None
    &&& (stepped.final_result matches Some(name) && spec_find_specialist(specialists, name@)
        is Some)
}

/// Whether that tick also commits a ledger record and a round pairing: a
/// target is selected and present in the catalog.
pub open spec fn spec_commits_record(
    stepped: AnimationState,
    prior_result: Option<(String, String)>,
    specialists: Seq<QualitySpecialist>,
    departments: Seq<Department>,
    selected: Option<String>,
) -> bool {
    &&& spec_commits_result(stepped, prior_result, specialists)
    &&& (selected matches Some(tid) && spec_find_dept(departments, tid@) is Some)
}

} // verus!
