use ratatui_guardian::{
    DetectionConfig, Duration, FrameBudget, PerWidgetStats, Severity, WasteCategory,
    WasteDetector, WasteFinding, WidgetStatsMap,
};

fn stats_for(name: &str, render_count: u64, last_cells: usize, full: bool, allowed: bool) -> PerWidgetStats {
    PerWidgetStats {
        name: name.to_string(),
        total_time_us: 1_000,
        render_count,
        last_cells,
        peak_time_us: 100,
        prev_cells: 0,
        last_was_full_redraw: full,
        full_redraw_allowed: allowed,
    }
}

#[test]
fn detects_hog() {
    let detector = WasteDetector::new();
    let budget = FrameBudget::for_60fps();
    let mut stats = WidgetStatsMap::new();
    stats.insert(
        "StatusBar".to_string(),
        PerWidgetStats {
            name: "StatusBar".to_string(),
            total_time_us: Duration::from_millis(50).as_micros() as u64,
            render_count: 10,
            last_cells: 80,
            peak_time_us: Duration::from_millis(10).as_micros() as u64,
            prev_cells: 80,
            last_was_full_redraw: false,
            full_redraw_allowed: false,
        },
    );

    let widgets = vec![
        ("StatusBar".to_string(), Duration::from_millis(12), 80),
        ("Body".to_string(), Duration::from_millis(1), 2000),
    ];

    let findings = detector.detect(1, Duration::from_millis(14), &widgets, &stats, &budget, 2);

    let hogs: Vec<_> = findings
        .iter()
        .filter(|f| matches!(f.category, WasteCategory::Hog { .. }))
        .collect();
    assert!(!hogs.is_empty());
    assert!(matches!(hogs[0].severity, Severity::Critical));
}

#[test]
fn division_by_zero_safe_with_tiny_frame_time() {
    let detector = WasteDetector::new();
    let budget = FrameBudget::for_60fps();
    let stats = WidgetStatsMap::new();
    let widgets = vec![("Widget".to_string(), Duration::from_nanos(500), 100)];
    let findings = detector.detect(1, Duration::from_nanos(500), &widgets, &stats, &budget, 1);
    assert!(
        findings.is_empty()
            || findings.iter().all(|f| !matches!(f.category, WasteCategory::Hog { .. }))
    );
}

#[test]
fn full_redraw_allowed_suppresses_heuristic() {
    let detector = WasteDetector::new();
    let budget = FrameBudget::for_60fps();
    let mut stats = WidgetStatsMap::new();
    stats.insert(
        "FullScreen".to_string(),
        PerWidgetStats {
            name: "FullScreen".to_string(),
            total_time_us: Duration::from_millis(5).as_micros() as u64,
            render_count: 10,
            last_cells: 2000,
            peak_time_us: Duration::from_millis(1).as_micros() as u64,
            prev_cells: 1000,
            last_was_full_redraw: true,
            full_redraw_allowed: true,
        },
    );
    let widgets = vec![("FullScreen".to_string(), Duration::from_micros(500), 2000)];
    let findings = detector.detect(1, Duration::from_millis(1), &widgets, &stats, &budget, 1);
    assert!(findings
        .iter()
        .all(|f| !matches!(f.category, WasteCategory::FullRedrawForSmallChange { .. })));
}

#[test]
fn deep_nesting_uses_actual_depth_not_widget_count() {
    let detector = WasteDetector::new();
    let budget = FrameBudget::for_60fps();
    let stats = WidgetStatsMap::new();
    let widgets: Vec<(String, Duration, usize)> = (0..10)
        .map(|i| (format!("Widget{i}"), Duration::from_micros(100), 50))
        .collect();
    let findings = detector.detect(1, Duration::from_millis(1), &widgets, &stats, &budget, 1);
    assert!(findings
        .iter()
        .all(|f| !matches!(f.category, WasteCategory::DeepNesting { .. })));
}

#[test]
fn deep_nesting_flags_when_actual_depth_exceeds_limit() {
    let detector = WasteDetector::new();
    let budget = FrameBudget::for_60fps();
    let stats = WidgetStatsMap::new();
    let widgets = vec![("A".to_string(), Duration::from_micros(100), 50)];
    let findings = detector.detect(1, Duration::from_millis(1), &widgets, &stats, &budget, 8);
    let nesting: Vec<_> = findings
        .iter()
        .filter(|f| matches!(f.category, WasteCategory::DeepNesting { .. }))
        .collect();
    assert_eq!(nesting.len(), 1);
    if let WasteCategory::DeepNesting { depth, limit } = &nesting[0].category {
        assert_eq!(*depth, 8);
        assert_eq!(*limit, 5);
    }
}

#[test]
fn configurable_hog_fraction() {
    let detector = WasteDetector::new();
    let detection = DetectionConfig::with(900_000, 500, 50, 2);
    let budget = FrameBudget::with_detection(Duration::from_millis(16), 10_000, 5, detection);
    let stats = WidgetStatsMap::new();
    let widgets = vec![("Widget".to_string(), Duration::from_millis(12), 100)];
    let findings = detector.detect(1, Duration::from_millis(14), &widgets, &stats, &budget, 1);
    assert!(findings.iter().all(|f| !matches!(f.category, WasteCategory::Hog { .. })));
}

#[test]
fn configurable_allocation_threshold() {
    let detector = WasteDetector::new();
    let detection = DetectionConfig::with(600_000, 500, 200, 2);
    let budget = FrameBudget::with_detection(Duration::from_millis(16), 10_000, 5, detection);
    let stats = WidgetStatsMap::new();
    let widgets = vec![("Widget".to_string(), Duration::from_micros(100), 1)];
    let findings = detector.detect(1, Duration::from_millis(1), &widgets, &stats, &budget, 1);
    assert!(findings
        .iter()
        .all(|f| !matches!(f.category, WasteCategory::SuspectedAllocation { .. })));
}

#[test]
fn hog_finding_exact_values() {
    let detector = WasteDetector::new();
    let budget = FrameBudget::for_60fps();
    let stats = WidgetStatsMap::new();
    // 12ms of a 14ms frame: 85.7%, above 85% so critical; whole percent 85.
    let widgets = vec![("StatusBar".to_string(), Duration::from_millis(12), 1000)];
    let findings = detector.detect(7, Duration::from_millis(14), &widgets, &stats, &budget, 0);
    assert_eq!(findings.len(), 1);
    assert_eq!(findings[0].frame, 7);
    assert_eq!(
        findings[0].category,
        WasteCategory::Hog { widget: "StatusBar".to_string(), fraction_percent: 85 }
    );
    assert_eq!(findings[0].severity, Severity::Critical);
    // 10ms of 14ms: 71%, a warning.
    let widgets = vec![("Side".to_string(), Duration::from_millis(10), 1000)];
    let findings = detector.detect(1, Duration::from_millis(14), &widgets, &stats, &budget, 0);
    assert_eq!(
        findings[0].category,
        WasteCategory::Hog { widget: "Side".to_string(), fraction_percent: 71 }
    );
    assert_eq!(findings[0].severity, Severity::Warning);
    // Exactly the hog fraction (60%) is not a hog.
    let widgets = vec![("Even".to_string(), Duration::from_millis(6), 1000)];
    let findings = detector.detect(1, Duration::from_millis(10), &widgets, &stats, &budget, 0);
    assert!(findings.is_empty());
}

#[test]
fn full_redraw_finding_exact_values() {
    let detector = WasteDetector::new();
    let budget = FrameBudget::for_60fps();
    let mut stats = WidgetStatsMap::new();
    stats.insert("Grid".to_string(), stats_for("Grid", 4, 700, true, false));
    stats.insert("Few".to_string(), stats_for("Few", 3, 700, true, false));
    let widgets = vec![
        ("Grid".to_string(), Duration::from_micros(10), 6000),
        ("Few".to_string(), Duration::from_micros(10), 6000),
        ("Small".to_string(), Duration::from_micros(10), 15),
    ];
    let findings = detector.detect(2, Duration::from_millis(1), &widgets, &stats, &budget, 0);
    assert_eq!(findings.len(), 1);
    assert_eq!(
        findings[0].category,
        WasteCategory::FullRedrawForSmallChange {
            widget: "Grid".to_string(),
            cells_written: 6000,
            estimated_needed: 600
        }
    );
    assert_eq!(findings[0].severity, Severity::Warning);

    let widgets = vec![("Grid".to_string(), Duration::from_micros(10), 501)];
    let findings = detector.detect(2, Duration::from_millis(1), &widgets, &stats, &budget, 0);
    assert_eq!(
        findings[0].category,
        WasteCategory::FullRedrawForSmallChange {
            widget: "Grid".to_string(),
            cells_written: 501,
            estimated_needed: 50
        }
    );
    assert_eq!(findings[0].severity, Severity::Hint);
}

#[test]
fn allocation_finding_exact_values() {
    let detector = WasteDetector::new();
    let budget = FrameBudget::for_60fps();
    let stats = WidgetStatsMap::new();
    // 900µs for 3 cells: 300µs per cell, above 4 × 50: a warning.
    let widgets = vec![("Label".to_string(), Duration::from_micros(900), 3)];
    let findings = detector.detect(3, Duration::from_millis(10), &widgets, &stats, &budget, 0);
    assert_eq!(findings.len(), 1);
    assert_eq!(
        findings[0].category,
        WasteCategory::SuspectedAllocation { widget: "Label".to_string(), render_time_us: 900, cells: 3 }
    );
    assert_eq!(findings[0].severity, Severity::Warning);
    // 120µs for 2 cells: 60µs per cell, a hint.
    let widgets = vec![("Label".to_string(), Duration::from_micros(120), 2)];
    let findings = detector.detect(3, Duration::from_millis(10), &widgets, &stats, &budget, 0);
    assert_eq!(findings[0].severity, Severity::Hint);
    // No cells: nothing to divide by, no finding.
    let widgets = vec![("Label".to_string(), Duration::from_micros(900), 0)];
    let findings = detector.detect(3, Duration::from_millis(10), &widgets, &stats, &budget, 0);
    assert!(findings.is_empty());
}

#[test]
fn findings_come_in_widget_order_then_nesting() {
    let detector = WasteDetector::new();
    let budget = FrameBudget::for_60fps();
    let stats = WidgetStatsMap::new();
    let widgets = vec![
        ("Slow".to_string(), Duration::from_millis(9), 2),
        ("Fast".to_string(), Duration::from_micros(10), 100),
    ];
    let findings: Vec<WasteFinding> =
        detector.detect(4, Duration::from_millis(10), &widgets, &stats, &budget, 6);
    assert_eq!(findings.len(), 3);
    assert!(matches!(findings[0].category, WasteCategory::Hog { .. }));
    assert!(matches!(findings[1].category, WasteCategory::SuspectedAllocation { .. }));
    assert!(matches!(findings[2].category, WasteCategory::DeepNesting { depth: 6, limit: 5 }));
}

#[test]
fn stash_and_retrieve_findings() {
    let mut detector = WasteDetector::default();
    assert!(detector.last_findings().is_empty());
    let budget = FrameBudget::for_60fps();
    let stats = WidgetStatsMap::new();
    let widgets = vec![("A".to_string(), Duration::from_micros(100), 50)];
    let findings = detector.detect(1, Duration::from_millis(1), &widgets, &stats, &budget, 9);
    detector.stash_findings(1, findings);
    assert_eq!(detector.last_findings().len(), 1);
    detector.stash_findings(2, Vec::new());
    assert!(detector.last_findings().is_empty());
}

#[test]
fn category_and_severity_messages() {
    let hog = WasteCategory::Hog { widget: "StatusBar".to_string(), fraction_percent: 67 };
    assert_eq!(hog.to_string(), "StatusBar consumed 67% of frame time");
    let nest = WasteCategory::DeepNesting { depth: 8, limit: 5 };
    assert_eq!(nest.to_string(), "layout nested 8 levels deep (limit: 5)");
    let alloc = WasteCategory::SuspectedAllocation {
        widget: "Label".to_string(),
        render_time_us: 900,
        cells: 3,
    };
    assert_eq!(
        alloc.to_string(),
        "Label took 900\u{b5}s for only 3 cells \u{2014} likely allocating Strings or Vecs every frame"
    );
    let redraw = WasteCategory::FullRedrawForSmallChange {
        widget: "Grid".to_string(),
        cells_written: 6000,
        estimated_needed: 600,
    };
    assert_eq!(
        redraw.to_string(),
        "Grid wrote 6000 cells but likely only needed ~600. It redraws the full area on every frame."
    );
    assert_eq!(Severity::Hint.to_string(), "hint");
    assert_eq!(Severity::Warning.to_string(), "warning");
    assert_eq!(Severity::Critical.to_string(), "CRITICAL");
}
