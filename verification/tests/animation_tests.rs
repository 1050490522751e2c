use quality_draw::animation::{AnimationPhase, AnimationState};

fn names(list: &[&str]) -> Vec<String> {
    list.iter().map(|s| s.to_string()).collect()
}

fn sorted(mut v: Vec<String>) -> Vec<String> {
    v.sort();
    v
}

#[test]
fn test_default_state() {
    let a = AnimationState::default();
    assert_eq!(a.phase, AnimationPhase::Idle);
    assert!(a.candidates.is_empty());
    assert_eq!(a.scroll_position_milli, 0);
    assert_eq!(a.scroll_speed_milli, 20000);
    assert!(a.final_result.is_none());
    assert_eq!(a.slowdown_duration_ms, 3000);
}

#[test]
fn test_start_keeps_candidates_and_clamps_low() {
    let mut a = AnimationState::default();
    let list = names(&["甲", "乙", "丙"]);
    a.start(list.clone());
    assert_eq!(a.phase, AnimationPhase::Rolling);
    assert_eq!(a.candidates.len(), 3);
    assert_eq!(sorted(a.candidates.clone()), sorted(list));
    // 3 * 3 items per second is below the band: clamped up to 30 items/s.
    assert_eq!(a.scroll_speed_milli, 30000);
    assert_eq!(a.scroll_position_milli, 0);
    assert!(a.final_result.is_none());
}

#[test]
fn test_start_speed_proportional() {
    let mut a = AnimationState::default();
    let list: Vec<String> = (0..20).map(|i| format!("n{}", i)).collect();
    a.start(list);
    // 20 * 3 = 60 items per second, inside the band.
    assert_eq!(a.scroll_speed_milli, 60000);
}

#[test]
fn test_start_speed_clamped_high() {
    let mut a = AnimationState::default();
    let list: Vec<String> = (0..50).map(|i| format!("n{}", i)).collect();
    a.start(list);
    // 50 * 3 = 150 items per second caps at 80.
    assert_eq!(a.scroll_speed_milli, 80000);
}

#[test]
fn test_start_empty_is_noop() {
    let mut a = AnimationState::default();
    a.start(Vec::new());
    assert_eq!(a.phase, AnimationPhase::Idle);
    assert!(a.candidates.is_empty());
}

#[test]
fn test_request_stop_only_when_rolling() {
    let mut a = AnimationState::default();
    a.request_stop();
    assert_eq!(a.phase, AnimationPhase::Idle);
    a.start(names(&["甲", "乙", "丙"]));
    a.request_stop();
    assert_eq!(a.phase, AnimationPhase::SlowingDown);
    assert_eq!(a.initial_speed_milli, 30000);
}

#[test]
fn test_update_rolling_advances_and_wraps() {
    let mut a = AnimationState::default();
    a.start(names(&["甲", "乙", "丙", "丁"]));
    // Speed is clamped to 30 items/s; half a second moves 15 items,
    // wrapped modulo 4: position 3 (in milli-units).
    let moved = a.update(500);
    assert!(moved);
    assert_eq!(a.phase, AnimationPhase::Rolling);
    assert_eq!(a.scroll_position_milli, 3000);
    assert!(a.final_result.is_none());
}

#[test]
fn test_update_idle_reports_no_motion() {
    let mut a = AnimationState::default();
    assert!(!a.update(100));
    a.start(names(&["甲", "乙"]));
    a.request_stop();
    a.update(3000);
    assert_eq!(a.phase, AnimationPhase::Stopped);
    assert!(!a.update(100));
}

#[test]
fn test_stop_exactly_at_duration() {
    let mut a = AnimationState::default();
    a.start(names(&["甲", "乙", "丙"]));
    a.request_stop();
    assert!(a.update(2999));
    assert_eq!(a.phase, AnimationPhase::SlowingDown);
    assert!(a.final_result.is_none());
    assert!(a.update(1));
    assert_eq!(a.phase, AnimationPhase::Stopped);
    assert_eq!(a.scroll_speed_milli, 0);
    assert!(a.final_result.is_some());
}

#[test]
fn test_stop_in_many_small_ticks() {
    let mut a = AnimationState::default();
    a.start(names(&["甲", "乙", "丙", "丁", "戊"]));
    a.request_stop();
    let mut elapsed = 0u64;
    while elapsed + 100 < 3000 {
        a.update(100);
        elapsed += 100;
        assert_eq!(a.phase, AnimationPhase::SlowingDown);
    }
    a.update(3000 - elapsed);
    assert_eq!(a.phase, AnimationPhase::Stopped);
    assert!(a.final_result.is_some());
}

#[test]
fn test_final_result_is_an_original_candidate() {
    // The committed outcome must be one of the three true candidates even
    // though a display may pad short lists: the index is computed against
    // the real list.
    let originals = names(&["甲", "乙", "丙"]);
    let mut a = AnimationState::default();
    a.start(originals.clone());
    a.request_stop();
    a.update(3000);
    assert_eq!(a.phase, AnimationPhase::Stopped);
    let result = a.final_result.clone().unwrap();
    assert!(originals.contains(&result));
    // The wheel was stopped before it ever moved, so it lands on index 0 of
    // the shuffled list.
    assert_eq!(result, a.candidates[0]);
    // The wheel snapped to a whole index.
    assert_eq!(a.scroll_position_milli % 1000, 0);
    let idx = a.current_index();
    assert!(idx < 3);
    assert_eq!(a.candidates[idx], result);
}

#[test]
fn test_current_name_and_offsets() {
    let mut a = AnimationState::default();
    a.start(names(&["甲", "乙", "丙"]));
    let idx = a.current_index();
    let len = a.candidates.len();
    assert_eq!(a.current_name().as_deref(), Some(a.candidates[idx].as_str()));
    assert_eq!(
        a.get_name_at_offset(0).as_deref(),
        Some(a.candidates[idx].as_str())
    );
    assert_eq!(
        a.get_name_at_offset(1).as_deref(),
        Some(a.candidates[(idx + 1) % len].as_str())
    );
    assert_eq!(
        a.get_name_at_offset(-1).as_deref(),
        Some(a.candidates[(idx + len - 1) % len].as_str())
    );
    assert_eq!(
        a.get_name_at_offset(-4).as_deref(),
        Some(a.candidates[(idx + 2 * len - 4) % len].as_str())
    );
}

#[test]
fn test_offsets_empty_list() {
    let a = AnimationState::default();
    assert!(a.current_name().is_none());
    assert!(a.get_name_at_offset(0).is_none());
    assert!(a.get_name_at_offset(-3).is_none());
}

#[test]
fn test_scroll_fraction() {
    let mut a = AnimationState::default();
    a.start(names(&["甲", "乙", "丙", "丁"]));
    a.update(50);
    // 30 items/s for 50 ms is 1.5 items: fraction 500 milli.
    assert_eq!(a.scroll_position_milli, 1500);
    assert_eq!(a.get_scroll_fraction(), 500);
}

#[test]
fn test_is_running_and_reset() {
    let mut a = AnimationState::default();
    assert!(!a.is_running());
    a.start(names(&["甲", "乙"]));
    assert!(a.is_running());
    a.request_stop();
    assert!(a.is_running());
    a.update(3000);
    assert!(!a.is_running());
    a.reset();
    assert_eq!(a.phase, AnimationPhase::Idle);
    assert!(a.candidates.is_empty());
    assert!(a.final_result.is_none());
}

#[test]
fn test_deceleration_slows_the_wheel() {
    let mut a = AnimationState::default();
    a.start(names(&["甲", "乙", "丙", "丁"]));
    let initial = a.scroll_speed_milli;
    a.request_stop();
    a.update(1500);
    // Halfway through, ease-out-cubic leaves (1 - 0.5)^3 = 1/8 of the speed.
    assert_eq!(a.scroll_speed_milli, initial / 8);
    a.update(1400);
    assert!(a.scroll_speed_milli < initial / 8);
    a.update(100);
    assert_eq!(a.scroll_speed_milli, 0);
}
