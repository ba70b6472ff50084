use ratatui_guardian::{Duration, FrameBudget, RenderProfiler};

fn spin(d: std::time::Duration) {
    let start = std::time::Instant::now();
    while start.elapsed() < d {}
}

#[test]
fn report_formats_nicely() {
    let mut p = RenderProfiler::new(FrameBudget::for_60fps());

    p.begin_frame();
    p.begin_widget("StatusBar");
    spin(std::time::Duration::from_millis(2));
    p.end_widget(80);
    p.begin_widget("Body");
    p.end_widget(2000);
    p.end_frame();

    let report = p.report().to_string();
    assert!(report.contains("Frame 1"));
    assert!(report.contains("StatusBar"));
    assert!(report.contains("Body"));
    assert!(report.contains("cells"));
}

#[test]
fn report_with_violations() {
    let budget = FrameBudget::new(Duration::from_millis(1), 10_000, 5);
    let mut p = RenderProfiler::new(budget);

    p.begin_frame();
    p.begin_widget("SlowWidget");
    spin(std::time::Duration::from_millis(5));
    p.end_widget(100);
    p.end_frame();

    let report = p.report().to_string();
    assert!(report.contains("OVER BUDGET"));
}

#[test]
fn report_exact_text() {
    let mut p = RenderProfiler::new(FrameBudget::for_60fps());
    p.begin_frame();
    p.begin_widget("StatusBar");
    p.end_widget_with_time(1000, Duration::from_millis(8));
    p.begin_widget("Body");
    p.end_widget_with_time(2000, Duration::from_millis(3));
    p.end_frame_with_time(Duration::from_millis(12));
    let report = p.report().to_string();
    let expected = "Frame 1: 12.0ms total (\u{2713}, budget: 16ms) 3000 cells\n\
                    \x20 StatusBar: 8.0ms (67%) for 1000 cells \u{2014} HOG\n\
                    \x20 Body: 3.0ms (25%) for 2000 cells\n\
                    \x20 1 findings: 0 critical, 1 warnings, 0 hints\n\
                    \x20   [warning] StatusBar consumed 66% of frame time\n";
    assert_eq!(report, expected);
}

#[test]
fn report_lists_widgets_longest_first_and_violations() {
    let mut p = RenderProfiler::new(FrameBudget::new(Duration::from_millis(1), 10_000, 5));
    p.begin_frame();
    p.begin_widget("A");
    p.end_widget_with_time(10, Duration::from_micros(240));
    p.begin_widget("B");
    p.end_widget_with_time(10, Duration::from_micros(1_060));
    p.begin_widget("C");
    p.end_widget_with_time(10, Duration::from_micros(240));
    p.end_frame_with_time(Duration::from_micros(2_000));
    let report = p.report().to_string();
    let lines: Vec<&str> = report.lines().collect();
    assert_eq!(lines[0], "Frame 1: 2.0ms total (\u{26a0} OVER BUDGET, budget: 1ms) 30 cells");
    assert_eq!(lines[1], "  B: 1.1ms (53%) for 10 cells \u{2014} ALLOCATES");
    assert_eq!(lines[2], "  A: 0.2ms (12%) for 10 cells");
    assert_eq!(lines[3], "  C: 0.2ms (12%) for 10 cells");
    assert_eq!(lines[4], "  \u{26a0} frame took 2ms (budget: 1ms)");
}

#[test]
fn empty_profiler_report() {
    let p = RenderProfiler::new(FrameBudget::for_30fps());
    let report = p.report();
    assert_eq!(report.profiler().last_frame(), 0);
    assert_eq!(report.to_string(), "Frame 0: 0.0ms total (\u{2713}, budget: 33ms) 0 cells\n");
}
