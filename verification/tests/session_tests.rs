use quality_draw::models::{default_departments, Department, DepartmentType, SpecialtyType};
use quality_draw::session::{parse_specialty, AppState, DrawError};

#[test]
fn test_parse_specialty_strings() {
    assert_eq!(parse_specialty("Pressure"), Some(SpecialtyType::Pressure));
    assert_eq!(parse_specialty("Mechanical"), Some(SpecialtyType::Mechanical));
    assert_eq!(parse_specialty("pressure"), None);
    assert_eq!(parse_specialty(""), None);
}

#[test]
fn test_error_messages() {
    assert_eq!(DrawError::InvalidCategory.message(), "无效的专责类型");
    assert_eq!(DrawError::UnknownTarget.message(), "未找到目标部门");
    assert_eq!(DrawError::NoCandidates.message(), "没有符合条件的候选部门");
    assert_eq!(DrawError::DuplicateDrawInRound.message(), "该部门本轮已抽取过");
}

#[test]
fn test_invalid_category() {
    let mut state = AppState::new();
    let departments = default_departments();
    let r = state.execute_draw(&departments, &"szs".to_string(), &"Bogus".to_string());
    assert!(!r.success);
    assert_eq!(r.message.as_deref(), Some("无效的专责类型"));
    assert!(r.department_id.is_none());
    assert!(state.records.is_empty());
    assert!(state.round.pressure.is_empty());
}

#[test]
fn test_unknown_target() {
    let mut state = AppState::new();
    let departments = default_departments();
    let r = state.execute_draw(&departments, &"nowhere".to_string(), &"Pressure".to_string());
    assert!(!r.success);
    assert_eq!(r.message.as_deref(), Some("未找到目标部门"));
    assert!(state.records.is_empty());
}

#[test]
fn test_no_candidates() {
    let mut state = AppState::new();
    // A catalog holding only the target itself leaves nothing to draw.
    let departments = vec![Department::new("szs", "石嘴山分院", DepartmentType::Comprehensive)];
    let r = state.execute_draw(&departments, &"szs".to_string(), &"Pressure".to_string());
    assert!(!r.success);
    assert_eq!(r.message.as_deref(), Some("没有符合条件的候选部门"));
    assert!(state.records.is_empty());
    assert!(state.round.pressure.is_empty());
}

#[test]
fn test_duplicate_draw_in_round() {
    let mut state = AppState::new();
    let departments = default_departments();
    let first = state.execute_draw(&departments, &"szs".to_string(), &"Pressure".to_string());
    assert!(first.success);
    let second = state.execute_draw(&departments, &"szs".to_string(), &"Pressure".to_string());
    assert!(!second.success);
    assert_eq!(second.message.as_deref(), Some("该部门本轮已抽取过"));
    // Nothing was added by the rejected draw.
    assert_eq!(state.records.len(), 1);
    assert_eq!(state.round.pressure.len(), 1);
}

#[test]
fn test_successful_draw_records_everything() {
    let mut state = AppState::new();
    let departments = default_departments();
    let r = state.execute_draw(&departments, &"szs".to_string(), &"Pressure".to_string());
    assert!(r.success);
    assert!(r.message.is_none());
    assert_eq!(r.specialty_type.as_deref(), Some("Pressure"));
    let did = r.department_id.clone().unwrap();
    let dname = r.department_name.clone().unwrap();
    // The picked department is a pressure-capable department other than the
    // target.
    assert_ne!(did, "szs");
    let picked = departments.iter().find(|d| d.id == did).unwrap();
    assert!(picked.department_type.needs_pressure());
    assert_eq!(picked.name, dname);
    // The ledger and the round both carry the pairing.
    assert_eq!(state.records.len(), 1);
    let rec = &state.records[0];
    assert_eq!(rec.target_department_id, "szs");
    assert_eq!(rec.target_department_name, "石嘴山分院");
    assert_eq!(rec.specialty_type, SpecialtyType::Pressure);
    assert_eq!(rec.selected_specialist_id, did);
    assert_eq!(rec.selected_specialist_name, dname);
    assert_eq!(rec.selected_from_department_id, did);
    assert_eq!(rec.id.len(), 36);
    assert_eq!(state.round.pressure.len(), 1);
    assert_eq!(state.round.pressure[0].target_id, "szs");
    assert_eq!(state.round.pressure[0].selected_id, did);
    assert!(state.round.mechanical.is_empty());
}

#[test]
fn test_no_entity_selected_twice_in_round() {
    // Drawing mechanical counterparts for every mechanical-capable target in
    // one round never hands the same department out twice.
    let mut state = AppState::new();
    let departments = default_departments();
    let mut selected = Vec::new();
    for target in ["nd", "szs", "wz"] {
        let r = state.execute_draw(&departments, &target.to_string(), &"Mechanical".to_string());
        assert!(r.success);
        selected.push(r.department_id.unwrap());
    }
    for i in 0..selected.len() {
        for j in (i + 1)..selected.len() {
            assert_ne!(selected[i], selected[j]);
        }
    }
}

#[test]
fn test_cross_avoidance_round_local() {
    // If this round sent szs to inspect nd, then nd must not come back to
    // inspect szs in the same round.
    let mut state = AppState::new();
    let departments = default_departments();
    let recorded = state.round.record("nd", "szs", "szs", SpecialtyType::Pressure);
    assert!(recorded);
    let names = state.get_candidate_departments(
        &departments,
        &"szs".to_string(),
        &"Pressure".to_string(),
    );
    assert!(!names.contains(&"宁东分院".to_string()));
    assert!(names.contains(&"吴忠分院".to_string()));
    for _ in 0..20 {
        let mut probe = AppState {
            records: Vec::new(),
            round: state.round.clone(),
        };
        let r = probe.execute_draw(&departments, &"szs".to_string(), &"Pressure".to_string());
        assert!(r.success);
        assert_ne!(r.department_id.as_deref(), Some("nd"));
    }
}

#[test]
fn test_consecutive_winner_excluded_by_history() {
    // After cy1 won the previous draw for (szs, Pressure), the next draw for
    // the same pair must avoid cy1 — there are plenty of other candidates.
    let departments = default_departments();
    for _ in 0..20 {
        let mut state = AppState::new();
        let first = state.execute_draw(&departments, &"szs".to_string(), &"Pressure".to_string());
        assert!(first.success);
        let winner = first.department_id.unwrap();
        state.start_new_round();
        let second = state.execute_draw(&departments, &"szs".to_string(), &"Pressure".to_string());
        assert!(second.success);
        assert_ne!(second.department_id.unwrap(), winner);
    }
}

#[test]
fn test_single_candidate_rule_forces_reselection() {
    // With only one possible counterpart, the most recent winner is the sole
    // candidate: the draw must reselect it and flag the forced choice.
    let departments = vec![
        Department::new("a", "甲部门", DepartmentType::Pressure),
        Department::new("b", "乙部门", DepartmentType::Pressure),
    ];
    let mut state = AppState::new();
    let first = state.execute_draw(&departments, &"a".to_string(), &"Pressure".to_string());
    assert!(first.success);
    assert!(!first.forced_unique);
    assert_eq!(first.department_id.as_deref(), Some("b"));
    state.start_new_round();
    let second = state.execute_draw(&departments, &"a".to_string(), &"Pressure".to_string());
    assert!(second.success);
    assert!(second.forced_unique);
    assert_eq!(second.department_id.as_deref(), Some("b"));
}

#[test]
fn test_start_new_round_keeps_ledger() {
    let mut state = AppState::new();
    let departments = default_departments();
    let r = state.execute_draw(&departments, &"gy".to_string(), &"Mechanical".to_string());
    assert!(r.success);
    assert_eq!(state.records.len(), 1);
    assert_eq!(state.round.mechanical.len(), 1);
    state.start_new_round();
    assert_eq!(state.records.len(), 1);
    assert!(state.round.pressure.is_empty());
    assert!(state.round.mechanical.is_empty());
}

#[test]
fn test_clear_records_keeps_round() {
    let mut state = AppState::new();
    let departments = default_departments();
    let r = state.execute_draw(&departments, &"gy".to_string(), &"Pressure".to_string());
    assert!(r.success);
    state.clear_records();
    assert!(state.records.is_empty());
    assert_eq!(state.round.pressure.len(), 1);
}

#[test]
fn test_get_candidate_departments_filters() {
    let state = AppState::new();
    let departments = default_departments();
    let names = state.get_candidate_departments(
        &departments,
        &"szs".to_string(),
        &"Mechanical".to_string(),
    );
    // Mechanical-capable departments other than the target: the four other
    // comprehensive ones and the two mechanical ones.
    assert_eq!(names.len(), 6);
    assert!(!names.contains(&"石嘴山分院".to_string()));
    assert!(names.contains(&"机电特种设备一部".to_string()));
    assert!(!names.contains(&"承压特种设备一部".to_string()));
    let invalid = state.get_candidate_departments(
        &departments,
        &"szs".to_string(),
        &"Nonsense".to_string(),
    );
    assert!(invalid.is_empty());
}

#[test]
fn test_round_status_pairs() {
    let mut state = AppState::new();
    let departments = default_departments();
    let r = state.execute_draw(&departments, &"zw".to_string(), &"Pressure".to_string());
    assert!(r.success);
    let (pressure, mechanical) = state.get_current_round_status();
    assert_eq!(pressure.len(), 1);
    assert_eq!(pressure[0].0, "zw");
    assert_eq!(pressure[0].1, r.department_id.unwrap());
    assert!(mechanical.is_empty());
}
