use ratatui_guardian::{BudgetViolation, Duration, FrameBudget, RenderProfiler, WasteCategory};

fn spin(d: std::time::Duration) {
    let start = std::time::Instant::now();
    while start.elapsed() < d {}
}

#[test]
fn basic_profiling_cycle() {
    let mut p = RenderProfiler::new(FrameBudget::for_60fps());

    p.begin_frame();
    p.begin_widget("Header");
    spin(std::time::Duration::from_millis(1));
    p.end_widget(200);
    p.begin_widget("Body");
    spin(std::time::Duration::from_millis(1));
    p.end_widget(2000);
    let total = p.end_frame();

    assert!(total >= Duration::from_millis(2));
    assert_eq!(p.last_frame(), 1);

    let stats = p.widget_stats();
    assert_eq!(stats.len(), 2);
    assert!(stats.get("Header").unwrap().render_count == 1);
    assert!(stats.get("Body").unwrap().last_cells == 2000);
}

#[test]
fn detects_over_budget() {
    let budget = FrameBudget::new(Duration::from_millis(1), 10_000, 5);
    let mut p = RenderProfiler::new(budget);

    p.begin_frame();
    p.begin_widget("SlowWidget");
    spin(std::time::Duration::from_millis(5));
    p.end_widget(100);
    p.end_frame();

    assert!(!p.last_violations().is_empty());
}

#[test]
fn full_redraw_detection() {
    let mut p = RenderProfiler::new(FrameBudget::for_60fps());

    p.begin_frame();
    p.begin_widget("Status");
    p.end_widget(100);
    p.end_frame();

    p.begin_frame();
    p.begin_widget("Status");
    p.end_widget(200);
    p.end_frame();

    let stats = p.widget_stats().get("Status").unwrap();
    assert!(stats.last_was_full_redraw);
}

#[test]
fn unmatched_end_widget_is_counted() {
    let mut p = RenderProfiler::new(FrameBudget::for_60fps());
    p.begin_frame();
    p.end_widget(100);
    assert_eq!(p.unmatched_end_widget_count(), 1);
    p.end_widget(50);
    assert_eq!(p.unmatched_end_widget_count(), 2);
}

#[test]
fn reset_clears_all_state() {
    let mut p = RenderProfiler::new(FrameBudget::for_60fps());

    p.begin_frame();
    p.begin_widget("Widget");
    p.end_widget(100);
    p.end_frame();

    assert_eq!(p.last_frame(), 1);
    assert!(!p.widget_stats().is_empty());

    p.reset();

    assert_eq!(p.last_frame(), 0);
    assert!(p.widget_stats().is_empty());
    assert_eq!(p.unmatched_end_widget_count(), 0);
}

#[test]
fn save_and_load_json_roundtrip() {
    let mut p = RenderProfiler::new(FrameBudget::for_60fps());
    p.begin_frame();
    p.begin_widget("Header");
    p.end_widget(200);
    p.end_frame();

    let snapshot = p.to_snapshot();

    let loaded = RenderProfiler::from_snapshot(snapshot, FrameBudget::for_60fps());
    assert_eq!(loaded.last_frame(), 1);
    assert_eq!(loaded.widget_stats().len(), 1);
    assert_eq!(loaded.widget_stats().get("Header").unwrap().last_cells, 200);
}

#[test]
fn compare_detects_degradation() {
    let budget = FrameBudget::for_60fps();

    let mut prev = RenderProfiler::new(budget.clone());
    prev.begin_frame();
    prev.begin_widget("Widget");
    spin(std::time::Duration::from_micros(100));
    prev.end_widget(50);
    prev.end_frame();

    let mut curr = RenderProfiler::new(budget.clone());
    curr.begin_frame();
    curr.begin_widget("Widget");
    spin(std::time::Duration::from_millis(5));
    curr.end_widget(50);
    curr.end_frame();

    let trend = curr.compare(&prev, 100_000).unwrap();
    assert!(!trend.degraded.is_empty());
    assert!(trend.significant_degradation);
}

#[test]
fn compare_detects_added_removed() {
    let budget = FrameBudget::for_60fps();

    let mut prev = RenderProfiler::new(budget.clone());
    prev.begin_frame();
    prev.begin_widget("A");
    prev.end_widget(10);
    prev.end_frame();

    let mut curr = RenderProfiler::new(budget.clone());
    curr.begin_frame();
    curr.begin_widget("B");
    curr.end_widget(10);
    curr.end_frame();

    let trend = curr.compare(&prev, 500_000).unwrap();
    assert!(trend.added.contains(&"B".to_string()));
    assert!(trend.removed.contains(&"A".to_string()));
}

#[test]
fn full_redraw_allowed_can_be_set() {
    let mut p = RenderProfiler::new(FrameBudget::for_60fps());

    p.set_full_redraw_allowed("MyWidget", true);
    p.begin_frame();
    p.begin_widget("MyWidget");
    p.end_widget(100);
    p.end_frame();

    assert!(p.widget_stats().get("MyWidget").unwrap().full_redraw_allowed);

    p.set_full_redraw_allowed("MyWidget", false);
    assert!(!p.widget_stats().get("MyWidget").unwrap().full_redraw_allowed);
}

#[test]
fn depth_tracking_is_accurate() {
    let mut p = RenderProfiler::new(FrameBudget::for_60fps());

    p.begin_frame();
    p.begin_widget("A");
    p.begin_widget("B");
    p.begin_widget("C");
    p.end_widget(10);
    p.end_widget(10);
    p.end_widget(10);
    p.end_frame();

    assert_eq!(p.last_frame_max_depth(), 3);
}

#[test]
fn timed_widgets_accumulate_statistics() {
    let mut p = RenderProfiler::new(FrameBudget::for_60fps());
    p.begin_frame();
    p.begin_widget("List");
    p.end_widget_with_time(100, Duration::from_micros(300));
    p.end_frame_with_time(Duration::from_millis(1));
    p.begin_frame();
    p.begin_widget("List");
    p.end_widget_with_time(140, Duration::from_micros(500));
    p.end_frame_with_time(Duration::from_millis(1));
    let s = p.widget_stats().get("List").unwrap();
    assert_eq!(s.render_count, 2);
    assert_eq!(s.total_time_us, 800);
    assert_eq!(s.peak_time_us, 500);
    assert_eq!(s.last_cells, 140);
    assert_eq!(s.prev_cells, 100);
    // 40 cells moved, not more than half of 100: not a full redraw.
    assert!(!s.last_was_full_redraw);
    assert_eq!(s.avg_time(), Duration::from_micros(400));
    assert_eq!(s.total_time(), Duration::from_micros(800));
    assert_eq!(s.peak_time(), Duration::from_micros(500));
}

#[test]
fn end_frame_records_violations_and_cells() {
    let budget = FrameBudget::new(Duration::from_millis(2), 150, 5);
    let mut p = RenderProfiler::new(budget);
    assert_eq!(p.last_frame_time(), None);
    assert_eq!(p.last_frame_total_cells(), 0);
    p.begin_frame();
    p.begin_widget("A");
    p.end_widget_with_time(100, Duration::from_micros(100));
    p.begin_widget("B");
    p.end_widget_with_time(60, Duration::from_micros(100));
    let total = p.end_frame_with_time(Duration::from_millis(3));
    assert_eq!(total, Duration::from_millis(3));
    assert_eq!(p.last_frame_time(), Some(Duration::from_millis(3)));
    assert_eq!(p.last_frame_total_cells(), 160);
    assert_eq!(
        p.last_violations(),
        &[
            BudgetViolation::OverTime {
                budget: Duration::from_millis(2),
                actual: Duration::from_millis(3)
            },
            BudgetViolation::DiffTooLarge { budget: 150, actual: 160 },
        ]
    );
}

#[test]
fn end_frame_runs_detection() {
    let mut p = RenderProfiler::new(FrameBudget::for_60fps());
    p.begin_frame();
    p.begin_widget("Hog");
    p.end_widget_with_time(1000, Duration::from_millis(9));
    p.begin_widget("Small");
    p.end_widget_with_time(1000, Duration::from_millis(1));
    p.end_frame_with_time(Duration::from_millis(10));
    let findings = p.last_findings();
    assert_eq!(findings.len(), 1);
    assert_eq!(findings[0].frame, 1);
    assert_eq!(
        findings[0].category,
        WasteCategory::Hog { widget: "Hog".to_string(), fraction_percent: 90 }
    );
}

#[test]
fn deep_nesting_is_reported_at_end_of_frame() {
    let mut p = RenderProfiler::new(FrameBudget::new(Duration::from_millis(16), 10_000, 2));
    p.begin_frame();
    p.begin_widget("A");
    p.begin_widget("B");
    p.begin_widget("C");
    p.end_widget_with_time(1, Duration::from_nanos(10));
    p.end_widget_with_time(1, Duration::from_nanos(10));
    p.end_widget_with_time(1, Duration::from_nanos(10));
    p.end_frame_with_time(Duration::from_millis(1));
    assert_eq!(p.last_frame_max_depth(), 3);
    assert!(p
        .last_findings()
        .iter()
        .any(|f| matches!(f.category, WasteCategory::DeepNesting { depth: 3, limit: 2 })));
}

#[test]
fn history_keeps_last_frame() {
    let mut p = RenderProfiler::new(FrameBudget::for_60fps());
    for i in 0..130u64 {
        p.begin_frame();
        p.end_frame_with_time(Duration::from_micros(i));
    }
    assert_eq!(p.last_frame(), 130);
    assert_eq!(p.last_frame_time(), Some(Duration::from_micros(129)));
}

#[test]
fn end_frame_without_begin_takes_no_time() {
    let mut p = RenderProfiler::new(FrameBudget::for_60fps());
    let total = p.end_frame();
    assert!(total.is_zero());
    assert_eq!(p.last_frame(), 0);
    assert_eq!(p.last_frame_time(), Some(Duration::zero()));
}

#[test]
fn snapshot_holds_profiler_state() {
    let mut p = RenderProfiler::new(FrameBudget::for_60fps());
    p.begin_frame();
    p.begin_widget("A");
    p.begin_widget("B");
    p.end_widget_with_time(30, Duration::from_micros(40));
    p.end_widget_with_time(20, Duration::from_micros(70));
    p.end_widget(1);
    p.end_frame_with_time(Duration::from_nanos(1_234_567));
    let snap = p.to_snapshot();
    assert_eq!(snap.frame_number, 1);
    assert_eq!(snap.budget_max_render_time_us, 16_000);
    assert_eq!(snap.budget_max_diff_cells, 10_000);
    assert_eq!(snap.budget_max_widget_depth, 5);
    assert_eq!(snap.widget_stats.len(), 2);
    assert_eq!(snap.widget_stats[0].name, "B");
    assert_eq!(snap.widget_stats[1].name, "A");
    assert_eq!(snap.unmatched_end_widget_count, 1);
    assert_eq!(snap.last_frame_max_depth, 2);
    assert_eq!(snap.last_frame_time_us, Some(1_234));
    assert_eq!(snap.last_frame_total_cells, 50);
}

#[test]
fn restoring_keeps_later_duplicate() {
    let mut p = RenderProfiler::new(FrameBudget::for_60fps());
    p.begin_frame();
    p.begin_widget("X");
    p.end_widget_with_time(5, Duration::from_micros(1));
    p.end_frame_with_time(Duration::from_micros(2));
    let mut snap = p.to_snapshot();
    let mut dup = snap.widget_stats[0].clone();
    dup.last_cells = 99;
    snap.widget_stats.push(dup);
    let restored = RenderProfiler::from_snapshot(snap, FrameBudget::for_30fps());
    assert_eq!(restored.widget_stats().len(), 1);
    assert_eq!(restored.widget_stats().get("X").unwrap().last_cells, 99);
    assert_eq!(restored.budget().max_render_time, Duration::from_millis(33));
    assert_eq!(restored.last_frame_time(), None);
}

#[test]
fn compare_orders_and_measures_trends() {
    let budget = FrameBudget::for_60fps();
    let mut prev = RenderProfiler::new(budget);
    let mut curr = RenderProfiler::new(budget);
    prev.begin_frame();
    curr.begin_frame();
    for (name, before, after) in [("A", 100u64, 110u64), ("B", 100, 300), ("C", 200, 100), ("D", 100, 90), ("E", 50, 50)] {
        prev.begin_widget(name);
        prev.end_widget_with_time(1, Duration::from_micros(before));
        curr.begin_widget(name);
        curr.end_widget_with_time(1, Duration::from_micros(after));
    }
    let t = curr.compare(&prev, 150_000).unwrap();
    let degraded: Vec<&str> = t.degraded.iter().map(|d| d.name.as_str()).collect();
    let improved: Vec<&str> = t.improved.iter().map(|d| d.name.as_str()).collect();
    assert_eq!(degraded, vec!["B", "A"]);
    assert_eq!(improved, vec!["C", "D"]);
    assert_eq!(t.degraded[0].previous_avg_us, 100);
    assert_eq!(t.degraded[0].current_avg_us, 300);
    assert!(t.significant_degradation);
    assert!(t.added.is_empty() && t.removed.is_empty());
    let t = curr.compare(&prev, 2_000_000).unwrap();
    assert!(!t.significant_degradation);
}

#[test]
fn comparing_with_itself_reports_nothing() {
    let mut p = RenderProfiler::new(FrameBudget::for_60fps());
    p.begin_frame();
    p.begin_widget("A");
    p.end_widget_with_time(1, Duration::from_micros(10));
    p.end_frame_with_time(Duration::from_micros(20));
    let t = p.compare(&p, 0).unwrap();
    assert!(t.degraded.is_empty() && t.improved.is_empty());
    assert!(t.added.is_empty() && t.removed.is_empty());
    assert!(!t.significant_degradation);
}

#[test]
fn widget_statistics_stay_consistent_over_renders() {
    let mut p = RenderProfiler::new(FrameBudget::for_60fps());
    let times = [30u64, 700, 5, 120, 0, 9000];
    for t in times {
        p.begin_frame();
        p.begin_widget("W");
        p.end_widget_with_time(10, Duration::from_micros(t));
        p.end_frame_with_time(Duration::from_micros(t + 10));
        let s = p.widget_stats().get("W").unwrap();
        assert!(s.peak_time_us <= s.total_time_us);
        assert!(s.total_time_us <= s.render_count * s.peak_time_us);
        assert!(s.avg_time().as_micros() <= s.peak_time_us as u128);
    }
    let s = p.widget_stats().get("W").unwrap();
    assert_eq!((s.render_count, s.total_time_us, s.peak_time_us), (6, 9855, 9000));
    assert_eq!(s.avg_time().as_micros(), 1642);
}
