use quality_draw::draw::{dept_name_of, find_last_selected, names_of, DrawEngine};
use quality_draw::models::{default_departments, DrawRecord, QualitySpecialist, SpecialtyType};
use rand::{Rng, SeedableRng};

fn create_test_specialists() -> Vec<QualitySpecialist> {
    vec![
        QualitySpecialist::new("1", "张三", "szs", SpecialtyType::Pressure),
        QualitySpecialist::new("2", "李四", "nd", SpecialtyType::Pressure),
        QualitySpecialist::new("3", "王五", "cy1", SpecialtyType::Pressure),
        QualitySpecialist::new("4", "赵六", "szs", SpecialtyType::Mechanical),
        QualitySpecialist::new("5", "钱七", "jd1", SpecialtyType::Mechanical),
    ]
}

#[test]
fn test_department_avoidance() {
    let specialists = create_test_specialists();
    let departments = default_departments();

    let candidates = DrawEngine::get_candidates(
        &specialists,
        &departments,
        "szs",
        SpecialtyType::Pressure,
        None,
        &Vec::new(),
        &Vec::new(),
    );

    assert!(!candidates.iter().any(|s| s.name == "张三"));
    assert!(candidates.iter().any(|s| s.name == "李四"));
    assert!(candidates.iter().any(|s| s.name == "王五"));
}

#[test]
fn test_consecutive_avoidance() {
    let specialists = create_test_specialists();
    let departments = default_departments();

    let candidates = DrawEngine::get_candidates(
        &specialists,
        &departments,
        "szs",
        SpecialtyType::Pressure,
        Some("2"),
        &Vec::new(),
        &Vec::new(),
    );

    assert!(!candidates.iter().any(|s| s.name == "李四"));
    assert!(candidates.iter().any(|s| s.name == "王五"));
}

#[test]
fn test_specialty_filter() {
    let specialists = create_test_specialists();
    let departments = default_departments();

    let candidates = DrawEngine::get_candidates(
        &specialists,
        &departments,
        "szs",
        SpecialtyType::Mechanical,
        None,
        &Vec::new(),
        &Vec::new(),
    );

    assert!(!candidates.iter().any(|s| s.name == "赵六"));
    assert!(candidates.iter().any(|s| s.name == "钱七"));
}

#[test]
fn test_round_selected_exclusion() {
    let specialists = create_test_specialists();
    let departments = default_departments();
    let round_selected = vec!["3".to_string()];

    let candidates = DrawEngine::get_candidates(
        &specialists,
        &departments,
        "szs",
        SpecialtyType::Pressure,
        None,
        &round_selected,
        &Vec::new(),
    );

    assert!(!candidates.iter().any(|s| s.name == "王五"));
    assert!(candidates.iter().any(|s| s.name == "李四"));
}

#[test]
fn test_cross_avoidance_exclusion() {
    let specialists = create_test_specialists();
    let departments = default_departments();
    let cross = vec!["nd".to_string()];

    let candidates = DrawEngine::get_candidates(
        &specialists,
        &departments,
        "szs",
        SpecialtyType::Pressure,
        None,
        &Vec::new(),
        &cross,
    );

    assert!(!candidates.iter().any(|s| s.name == "李四"));
    assert!(candidates.iter().any(|s| s.name == "王五"));
}

#[test]
fn test_get_rolling_names() {
    let specialists = create_test_specialists();

    let names = DrawEngine::get_rolling_names(
        &specialists,
        "szs",
        SpecialtyType::Pressure,
        None,
        &Vec::new(),
        &Vec::new(),
    );

    assert_eq!(names, vec!["李四".to_string(), "王五".to_string()]);
}

#[test]
fn test_draw_one_empty() {
    let candidates: Vec<QualitySpecialist> = Vec::new();
    assert!(DrawEngine::draw_one(&candidates).is_none());
}

#[test]
fn test_draw_one_is_member() {
    let specialists = create_test_specialists();
    for _ in 0..20 {
        let picked = DrawEngine::draw_one(&specialists).expect("non-empty list must yield a pick");
        assert!(specialists.iter().any(|s| s.id == picked.id && s.name == picked.name));
    }
}

#[test]
fn test_draw_one_singleton() {
    let only = vec![QualitySpecialist::new("9", "独苗", "nd", SpecialtyType::Pressure)];
    let picked = DrawEngine::draw_one(&only).unwrap();
    assert_eq!(picked.name, "独苗");
}

#[test]
fn test_draw_at_deterministic() {
    let specialists = create_test_specialists();
    let picked = DrawEngine::draw_at(&specialists, 2);
    assert_eq!(picked.name, "王五");
}

#[test]
fn test_seeded_pick_is_reproducible() {
    // A caller that wants a deterministic draw injects the position itself,
    // here from a seeded generator: the same seed always picks the same
    // specialist.
    let specialists = create_test_specialists();
    let mut first_rng = rand::rngs::StdRng::seed_from_u64(42);
    let i = first_rng.gen_range(0..specialists.len());
    let first = DrawEngine::draw_at(&specialists, i);
    let mut second_rng = rand::rngs::StdRng::seed_from_u64(42);
    let j = second_rng.gen_range(0..specialists.len());
    let second = DrawEngine::draw_at(&specialists, j);
    assert_eq!(first.id, second.id);
    assert_eq!(first.name, second.name);
}

#[test]
fn test_candidates_with_bypass_normal() {
    let specialists = create_test_specialists();
    let (candidates, forced) = DrawEngine::candidates_with_bypass(
        &specialists,
        "szs",
        SpecialtyType::Pressure,
        Some("2"),
        &Vec::new(),
        &Vec::new(),
    );
    assert!(!forced);
    assert_eq!(candidates.len(), 1);
    assert_eq!(candidates[0].name, "王五");
}

#[test]
fn test_candidates_with_bypass_forced() {
    let specialists = create_test_specialists();
    // Excluding 王五 this round leaves 李四 the only pressure candidate;
    // marking 李四 as the last winner empties the constrained set, so the
    // single-candidate rule must reselect 李四 and report the forced choice.
    let round_selected = vec!["3".to_string()];
    let (candidates, forced) = DrawEngine::candidates_with_bypass(
        &specialists,
        "szs",
        SpecialtyType::Pressure,
        Some("2"),
        &round_selected,
        &Vec::new(),
    );
    assert!(forced);
    assert_eq!(candidates.len(), 1);
    assert_eq!(candidates[0].name, "李四");
}

#[test]
fn test_candidates_with_bypass_exhausted() {
    let specialists = create_test_specialists();
    // Both pressure candidates are excluded by the round: nothing is left
    // and the bypass does not apply (the wider set has two members).
    let round_selected = vec!["2".to_string(), "3".to_string()];
    let (candidates, forced) = DrawEngine::candidates_with_bypass(
        &specialists,
        "szs",
        SpecialtyType::Pressure,
        None,
        &round_selected,
        &Vec::new(),
    );
    assert!(!forced);
    assert!(candidates.is_empty());
}

#[test]
fn test_find_last_selected() {
    let records = vec![
        DrawRecord::new("szs", "石嘴山分院", SpecialtyType::Pressure, "2", "李四", "nd", "宁东分院"),
        DrawRecord::new("nd", "宁东分院", SpecialtyType::Pressure, "3", "王五", "cy1", "承压特种设备一部"),
        DrawRecord::new("szs", "石嘴山分院", SpecialtyType::Pressure, "3", "王五", "cy1", "承压特种设备一部"),
        DrawRecord::new("szs", "石嘴山分院", SpecialtyType::Mechanical, "5", "钱七", "jd1", "机电特种设备一部"),
    ];
    assert_eq!(
        find_last_selected(&records, "szs", SpecialtyType::Pressure),
        Some("3".to_string())
    );
    assert_eq!(
        find_last_selected(&records, "nd", SpecialtyType::Pressure),
        Some("3".to_string())
    );
    assert_eq!(
        find_last_selected(&records, "szs", SpecialtyType::Mechanical),
        Some("5".to_string())
    );
    assert_eq!(find_last_selected(&records, "wz", SpecialtyType::Pressure), None);
    assert_eq!(find_last_selected(&Vec::new(), "szs", SpecialtyType::Pressure), None);
}

#[test]
fn test_dept_name_of() {
    let departments = default_departments();
    assert_eq!(dept_name_of(&departments, "szs"), "石嘴山分院");
    assert_eq!(dept_name_of(&departments, "jd2"), "机电特种设备二部");
    assert_eq!(dept_name_of(&departments, "missing"), "未知部门");
}

#[test]
fn test_names_of() {
    let specialists = create_test_specialists();
    let names = names_of(&specialists);
    assert_eq!(names.len(), 5);
    assert_eq!(names[0], "张三");
    assert_eq!(names[4], "钱七");
}

#[test]
fn test_execute_draw_engine() {
    let specialists = create_test_specialists();
    let departments = default_departments();
    let target = departments.iter().find(|d| d.id == "szs").unwrap().clone();
    let round = quality_draw::round::RoundTracker::new();
    let (picked, dept_name) = DrawEngine::execute_draw(
        &specialists,
        &departments,
        &target,
        SpecialtyType::Mechanical,
        &Vec::new(),
        &round,
    )
    .expect("a mechanical candidate exists");
    assert_eq!(picked.name, "钱七");
    assert_eq!(dept_name, "机电特种设备一部");
}
