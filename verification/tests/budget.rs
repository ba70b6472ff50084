use ratatui_guardian::{BudgetViolation, DetectionConfig, Duration, FrameBudget};

#[test]
fn sixty_fps_budget() {
    let b = FrameBudget::for_60fps();
    assert_eq!(b.max_render_time, Duration::from_millis(16));
    assert_eq!(b.max_widget_depth, 5);
}

#[test]
fn detects_over_time() {
    let b = FrameBudget::for_60fps();
    let v = b.check_time(Duration::from_millis(20));
    assert!(v.is_some());
    assert!(matches!(v.unwrap(), BudgetViolation::OverTime { .. }));
}

#[test]
fn within_budget_is_ok() {
    let b = FrameBudget::for_60fps();
    assert!(b.check_time(Duration::from_millis(10)).is_none());
    assert!(b.check_diff(100).is_none());
    assert!(b.check_depth(3).is_none());
}

#[test]
fn thirty_fps_budget_limits() {
    let b = FrameBudget::for_30fps();
    assert_eq!(b.max_render_time, Duration::from_millis(33));
    assert_eq!(b.max_diff_cells, 10_000);
    assert_eq!(b.max_widget_depth, 5);
    assert_eq!(b.detection, DetectionConfig::new());
}

#[test]
fn default_detection_thresholds() {
    let c = DetectionConfig::default();
    assert_eq!(c.hog_fraction, 600_000);
    assert_eq!(c.full_redraw_cell_threshold, 500);
    assert_eq!(c.allocation_us_per_cell, 50);
    assert_eq!(c.deep_nesting_multiplier, 2);
    assert_eq!(FrameBudget::default(), FrameBudget::for_60fps());
}

#[test]
fn limits_are_exclusive() {
    let b = FrameBudget::new(Duration::from_millis(5), 100, 3);
    assert!(b.check_time(Duration::from_millis(5)).is_none());
    assert_eq!(
        b.check_time(Duration::from_nanos(5_000_001)),
        Some(BudgetViolation::OverTime {
            budget: Duration::from_millis(5),
            actual: Duration::from_nanos(5_000_001)
        })
    );
    assert!(b.check_diff(100).is_none());
    assert_eq!(
        b.check_diff(101),
        Some(BudgetViolation::DiffTooLarge { budget: 100, actual: 101 })
    );
    assert!(b.check_depth(3).is_none());
    assert_eq!(
        b.check_depth(4),
        Some(BudgetViolation::DepthTooDeep { budget: 3, actual: 4 })
    );
}

#[test]
fn violation_messages() {
    let over = BudgetViolation::OverTime {
        budget: Duration::from_millis(16),
        actual: Duration::from_micros(20_900),
    };
    assert_eq!(over.to_string(), "frame took 20ms (budget: 16ms)");
    let diff = BudgetViolation::DiffTooLarge { budget: 10, actual: 12 };
    assert_eq!(diff.to_string(), "diff touched 12 cells (budget: 10)");
    let depth = BudgetViolation::DepthTooDeep { budget: 5, actual: 7 };
    assert_eq!(depth.to_string(), "widget depth 7 (budget: 5)");
}

#[test]
fn durations_convert_exactly() {
    let d = Duration::new(3, 1_500_000_000);
    assert_eq!(d.as_secs(), 4);
    assert_eq!(d.subsec_nanos(), 500_000_000);
    assert_eq!(d.as_millis(), 4_500);
    assert_eq!(d.as_micros(), 4_500_000);
    assert_eq!(d.as_nanos(), 4_500_000_000);
    assert!(Duration::zero().is_zero());
    assert!(Duration::from_secs(1).longer_than(&Duration::from_millis(999)));
    assert!(!Duration::from_secs(1).longer_than(&Duration::from_millis(1000)));
}
