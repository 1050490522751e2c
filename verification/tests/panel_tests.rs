use quality_draw::animation::AnimationPhase;
use quality_draw::models::{default_departments, QualitySpecialist, SpecialtyType};
use quality_draw::panel::{find_specialist_by_name, CurrentDrawing, DrawType, MainPanel};

fn two_pressure_specialists() -> Vec<QualitySpecialist> {
    vec![
        QualitySpecialist::new("a", "甲", "szs", SpecialtyType::Pressure),
        QualitySpecialist::new("b", "乙", "nd", SpecialtyType::Pressure),
    ]
}

#[test]
fn test_get_draw_type() {
    let departments = default_departments();
    let mut panel = MainPanel::default();
    assert_eq!(panel.get_draw_type(&departments), None);
    panel.selected_department_id = Some("szs".to_string());
    assert_eq!(panel.get_draw_type(&departments), Some(DrawType::Both));
    panel.selected_department_id = Some("cy1".to_string());
    assert_eq!(panel.get_draw_type(&departments), Some(DrawType::PressureOnly));
    panel.selected_department_id = Some("jd2".to_string());
    assert_eq!(panel.get_draw_type(&departments), Some(DrawType::MechanicalOnly));
    panel.selected_department_id = Some("nope".to_string());
    assert_eq!(panel.get_draw_type(&departments), None);
}

#[test]
fn test_start_draw_needs_selection() {
    let departments = default_departments();
    let specialists = two_pressure_specialists();
    let mut panel = MainPanel::default();
    panel.start_draw(&specialists, &departments, &Vec::new());
    assert!(!panel.is_drawing);
    assert_eq!(panel.status_message, "请先选择被检查部门");
}

#[test]
fn test_sole_eligible_entity_always_wins() {
    // Two entities, one of the target's own group: the eligible set is the
    // other one alone, and it is the committed result regardless of prior
    // history (the single-candidate rule overrides consecutive avoidance).
    let departments = default_departments();
    let specialists = two_pressure_specialists();
    let history = vec![quality_draw::models::DrawRecord::new(
        "szs",
        "石嘴山分院",
        SpecialtyType::Pressure,
        "b",
        "乙",
        "nd",
        "宁东分院",
    )];
    let mut panel = MainPanel::default();
    panel.selected_department_id = Some("szs".to_string());
    panel.start_draw(&specialists, &departments, &history);
    assert!(panel.is_drawing);
    assert_eq!(panel.pressure_animation.candidates, vec!["乙".to_string()]);
    // The forced sole-survivor choice is signalled to the caller.
    assert_eq!(panel.status_message, "正在抽取... (包含唯一候选岗位)");
    panel.stop_draw();
    let records = panel.update(&specialists, &departments, 3000);
    assert_eq!(panel.pressure_animation.phase, AnimationPhase::Stopped);
    assert_eq!(
        panel.pressure_animation.final_result.as_deref(),
        Some("乙")
    );
    assert_eq!(
        panel.pressure_result,
        Some(("乙".to_string(), "宁东分院".to_string()))
    );
    // The finished pressure draw was committed to the ledger and the round.
    assert_eq!(records.len(), 1);
    assert_eq!(records[0].target_department_id, "szs");
    assert_eq!(records[0].selected_specialist_id, "b");
    assert_eq!(records[0].selected_from_department_id, "nd");
    assert_eq!(panel.round.pressure.len(), 1);
    assert_eq!(panel.round.pressure[0].selected_id, "b");
}

#[test]
fn test_start_draw_single_wheel() {
    let departments = default_departments();
    let specialists = two_pressure_specialists();
    let mut panel = MainPanel::default();
    panel.selected_department_id = Some("cy1".to_string());
    panel.start_draw(&specialists, &departments, &Vec::new());
    assert!(panel.is_drawing);
    assert_eq!(panel.status_message, "正在抽取承压类人员...");
    assert_eq!(panel.current_drawing, Some(CurrentDrawing::Pressure));
    assert_eq!(panel.pressure_animation.phase, AnimationPhase::Rolling);
    assert_eq!(panel.pressure_animation.candidates.len(), 2);
    assert_eq!(panel.mechanical_animation.phase, AnimationPhase::Idle);
}

#[test]
fn test_start_draw_both_wheels() {
    let departments = default_departments();
    let mut specialists = two_pressure_specialists();
    specialists.push(QualitySpecialist::new("c", "丙", "jd1", SpecialtyType::Mechanical));
    let mut panel = MainPanel::default();
    panel.selected_department_id = Some("wz".to_string());
    panel.start_draw(&specialists, &departments, &Vec::new());
    assert!(panel.is_drawing);
    assert_eq!(panel.current_drawing, None);
    assert_eq!(panel.pressure_animation.phase, AnimationPhase::Rolling);
    assert_eq!(panel.mechanical_animation.phase, AnimationPhase::Rolling);
    assert_eq!(panel.pressure_animation.candidates.len(), 2);
    assert_eq!(panel.mechanical_animation.candidates, vec!["丙".to_string()]);
}

#[test]
fn test_start_draw_no_candidates() {
    let departments = default_departments();
    let specialists = vec![QualitySpecialist::new("a", "甲", "jd2", SpecialtyType::Mechanical)];
    let mut panel = MainPanel::default();
    panel.selected_department_id = Some("cy1".to_string());
    panel.start_draw(&specialists, &departments, &Vec::new());
    assert!(!panel.is_drawing);
    assert_eq!(panel.status_message, "没有可抽取的承压类人员！");
    assert_eq!(panel.pressure_animation.phase, AnimationPhase::Idle);
}

#[test]
fn test_stop_draw_decelerates_wheels() {
    let departments = default_departments();
    let specialists = two_pressure_specialists();
    let mut panel = MainPanel::default();
    panel.selected_department_id = Some("cy1".to_string());
    panel.start_draw(&specialists, &departments, &Vec::new());
    panel.stop_draw();
    assert_eq!(panel.pressure_animation.phase, AnimationPhase::SlowingDown);
    assert_eq!(panel.status_message, "减速中...");
    let _ = panel.update(&specialists, &departments, 3000);
    assert_eq!(panel.pressure_animation.phase, AnimationPhase::Stopped);
    assert!(!panel.is_drawing);
    assert_eq!(panel.status_message, "抽签完成！");
}

#[test]
fn test_update_does_not_recommit() {
    let departments = default_departments();
    let specialists = two_pressure_specialists();
    let mut panel = MainPanel::default();
    panel.selected_department_id = Some("cy1".to_string());
    panel.start_draw(&specialists, &departments, &Vec::new());
    panel.stop_draw();
    let first = panel.update(&specialists, &departments, 3000);
    assert_eq!(first.len(), 1);
    let again = panel.update(&specialists, &departments, 100);
    assert!(again.is_empty());
    assert_eq!(panel.round.pressure.len(), 1);
}

#[test]
fn test_forced_signal_single_wheel() {
    // One pressure candidate who is also the most recent winner: the single
    // wheel starts with that sole name and the status carries the
    // forced-unique signal.
    let departments = default_departments();
    let specialists = vec![QualitySpecialist::new("a", "甲", "nd", SpecialtyType::Pressure)];
    let history = vec![quality_draw::models::DrawRecord::new(
        "cy1",
        "承压特种设备一部",
        SpecialtyType::Pressure,
        "a",
        "甲",
        "nd",
        "宁东分院",
    )];
    let mut panel = MainPanel::default();
    panel.selected_department_id = Some("cy1".to_string());
    panel.start_draw(&specialists, &departments, &history);
    assert!(panel.is_drawing);
    assert_eq!(panel.pressure_animation.candidates, vec!["甲".to_string()]);
    assert_eq!(panel.status_message, "正在抽取承压类人员 (唯一候选)...");
}

#[test]
fn test_find_specialist_first_match() {
    // With a duplicated name, the first catalog entry wins, so the committed
    // department attribution is deterministic.
    let specialists = vec![
        QualitySpecialist::new("x1", "同名", "nd", SpecialtyType::Pressure),
        QualitySpecialist::new("x2", "同名", "wz", SpecialtyType::Pressure),
    ];
    let found = find_specialist_by_name(&specialists, "同名").unwrap();
    assert_eq!(found.id, "x1");
    assert_eq!(found.department_id, "nd");
    assert!(find_specialist_by_name(&specialists, "无人").is_none());
}
