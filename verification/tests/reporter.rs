use ratatui_guardian::{Duration, FrameBudget, RenderProfiler, Reporter, TrendReport, WidgetTrend};

fn spin(d: std::time::Duration) {
    let start = std::time::Instant::now();
    while start.elapsed() < d {}
}

fn make_profiler() -> RenderProfiler {
    let mut p = RenderProfiler::new(FrameBudget::for_60fps());
    p.begin_frame();
    p.begin_widget("Header");
    spin(std::time::Duration::from_micros(500));
    p.end_widget(200);
    p.begin_widget("Body");
    spin(std::time::Duration::from_micros(200));
    p.end_widget(2000);
    p.end_frame();
    p
}

fn make_timed_profiler() -> RenderProfiler {
    let mut p = RenderProfiler::new(FrameBudget::for_60fps());
    p.begin_frame();
    p.begin_widget("Header");
    p.end_widget_with_time(200, Duration::from_micros(500));
    p.begin_widget("Body");
    p.end_widget_with_time(2000, Duration::from_micros(200));
    p.end_frame_with_time(Duration::from_micros(800));
    p
}

#[test]
fn json_export_structure() {
    let p = make_profiler();
    let r = Reporter::from_profiler(&p);
    let json = r.to_json();
    assert!(json.contains("\"frame_number\": 1"));
    assert!(json.contains("\"Header\""));
    assert!(json.contains("\"Body\""));
    assert!(json.contains("\"budget\":"));
    assert!(json.contains("\"findings\":"));
}

#[test]
fn prometheus_export_format() {
    let p = make_profiler();
    let r = Reporter::from_profiler(&p);
    let prom = r.to_prometheus();
    assert!(prom.contains("guardian_frame_time_us"));
    assert!(prom.contains("guardian_widget_total_time_us{widget=\"Header\"}"));
    assert!(prom.contains("# TYPE guardian_widget_render_count counter"));
    assert!(prom.contains("guardian_frame_total_cells"));
}

#[test]
fn csv_export_format() {
    let p = make_profiler();
    let r = Reporter::from_profiler(&p);
    let csv = r.to_csv();
    assert!(csv.starts_with("widget,total_time_us,render_count"));
    assert!(csv.contains("Header,"));
    assert!(csv.contains("Body,"));
    assert_eq!(csv.lines().count(), 3);
}

#[test]
fn csv_exact_rows_sorted_by_name() {
    let p = make_timed_profiler();
    let csv = Reporter::from_profiler(&p).to_csv();
    assert_eq!(
        csv,
        "widget,total_time_us,render_count,last_cells,peak_time_us,avg_time_us,full_redraw\n\
         Body,200,1,2000,200,200,false\n\
         Header,500,1,200,500,500,false\n"
    );
}

#[test]
fn json_exact_text() {
    let p = make_timed_profiler();
    let json = Reporter::from_profiler(&p).to_json();
    let expected = "{\"frame_number\": 1,\"last_frame_time_us\": 800,\
        \"budget\": {\"max_render_time_us\": 16000, \"max_diff_cells\": 10000, \"max_widget_depth\": 5},\
        \"widgets\": [\
        {\"name\": \"Body\",\"total_time_us\": 200,\"render_count\": 1,\"last_cells\": 2000,\"peak_time_us\": 200,\"avg_time_us\": 200,\"last_was_full_redraw\": false,\"full_redraw_allowed\": false},\
        {\"name\": \"Header\",\"total_time_us\": 500,\"render_count\": 1,\"last_cells\": 200,\"peak_time_us\": 500,\"avg_time_us\": 500,\"last_was_full_redraw\": false,\"full_redraw_allowed\": false}],\
        \"findings\": [{\"frame\": 1,\"severity\": \"warning\",\"message\": \"Header consumed 62% of frame time\"}],\
        \"violations\": []}";
    assert_eq!(json, expected);
}

#[test]
fn json_with_trend() {
    let budget = FrameBudget::for_60fps();
    let mut prev = RenderProfiler::new(budget);
    let mut curr = RenderProfiler::new(budget);
    prev.begin_frame();
    prev.begin_widget("W");
    prev.end_widget_with_time(1, Duration::from_micros(300));
    prev.begin_widget("V");
    prev.end_widget_with_time(1, Duration::from_micros(300));
    curr.begin_frame();
    curr.begin_widget("W");
    curr.end_widget_with_time(1, Duration::from_micros(400));
    curr.begin_widget("V");
    curr.end_widget_with_time(1, Duration::from_micros(299));
    let trend = curr.compare(&prev, 250_000).unwrap();
    let json = Reporter::from_profiler(&curr).with_trend(&trend).to_json();
    assert!(json.ends_with(
        ",\"trend\": {\"significant_degradation\": true,\"degraded\": [\
         {\"name\": \"W\",\"previous_avg_us\": 300,\"current_avg_us\": 400,\"change_percent\": 33.3}\
         ],\"improved\": [\
         {\"name\": \"V\",\"previous_avg_us\": 300,\"current_avg_us\": 299,\"change_percent\": -0.3}\
         ]}}"
    ));
    assert!(json.contains("\"violations\": []"));
}

#[test]
fn prometheus_exact_text() {
    let p = make_timed_profiler();
    let prom = Reporter::from_profiler(&p).to_prometheus();
    let expected = "# HELP guardian_frame_time_us Total time for the last profiled frame in microseconds.\n\
        # TYPE guardian_frame_time_us gauge\n\
        guardian_frame_time_us 800\n\n\
        # HELP guardian_frame_total_cells Total cells written in the last frame.\n\
        # TYPE guardian_frame_total_cells gauge\n\
        guardian_frame_total_cells 2200\n\n\
        # HELP guardian_findings_total Number of waste findings by severity.\n\
        # TYPE guardian_findings_total gauge\n\
        guardian_findings_total{severity=\"critical\"} 0\n\
        guardian_findings_total{severity=\"warning\"} 1\n\
        guardian_findings_total{severity=\"hint\"} 0\n\n\
        # HELP guardian_widget_total_time_us Total render time for this widget in microseconds.\n\
        # TYPE guardian_widget_total_time_us counter\n\
        guardian_widget_total_time_us{widget=\"Body\"} 200\n\
        guardian_widget_total_time_us{widget=\"Header\"} 500\n\n\
        # HELP guardian_widget_render_count Number of times this widget has been rendered.\n\
        # TYPE guardian_widget_render_count counter\n\
        guardian_widget_render_count{widget=\"Body\"} 1\n\
        guardian_widget_render_count{widget=\"Header\"} 1\n\n\
        # HELP guardian_widget_peak_time_us Peak render time for this widget in microseconds.\n\
        # TYPE guardian_widget_peak_time_us gauge\n\
        guardian_widget_peak_time_us{widget=\"Body\"} 200\n\
        guardian_widget_peak_time_us{widget=\"Header\"} 500\n\n\
        # HELP guardian_widget_last_cells Cells written by this widget in the last render.\n\
        # TYPE guardian_widget_last_cells gauge\n\
        guardian_widget_last_cells{widget=\"Body\"} 2000\n\
        guardian_widget_last_cells{widget=\"Header\"} 200\n";
    assert_eq!(prom, expected);
}

#[test]
fn json_quotes_names() {
    let mut p = RenderProfiler::new(FrameBudget::for_60fps());
    p.set_full_redraw_allowed("say \"hi\"", true);
    let json = Reporter::from_profiler(&p).to_json();
    assert!(json.contains("\"name\": \"say \\\"hi\\\"\""));
    assert!(json.contains("\"full_redraw_allowed\": true"));
    assert!(!json.contains("last_frame_time_us"));
}

#[test]
fn reporter_text_is_its_json() {
    let p = make_timed_profiler();
    let r = Reporter::from_profiler(&p);
    assert_eq!(r.to_string(), r.to_json());
}

#[test]
fn json_trend_without_finite_change_writes_null() {
    let p = RenderProfiler::new(FrameBudget::for_60fps());
    let trend = TrendReport {
        degraded: vec![WidgetTrend { name: "Z".to_string(), previous_avg_us: 0, current_avg_us: 5 }],
        improved: vec![WidgetTrend { name: "Y".to_string(), previous_avg_us: 0, current_avg_us: 0 }],
        added: vec![],
        removed: vec![],
        significant_degradation: false,
    };
    let json = Reporter::from_profiler(&p).with_trend(&trend).to_json();
    assert!(json.ends_with(
        "\"degraded\": [{\"name\": \"Z\",\"previous_avg_us\": 0,\"current_avg_us\": 5,\"change_percent\": null}],\
         \"improved\": [{\"name\": \"Y\",\"previous_avg_us\": 0,\"current_avg_us\": 0,\"change_percent\": null}]}}"
    ));
}

fn awkward_profiler() -> RenderProfiler {
    let mut p = RenderProfiler::new(FrameBudget::for_60fps());
    p.begin_frame();
    p.begin_widget("a\"b\\c\nd\te\u{1}f,g");
    p.end_widget_with_time(3, Duration::from_micros(40));
    p.end_frame_with_time(Duration::from_micros(50));
    p
}

#[test]
fn json_escapes_names_and_messages() {
    let p = awkward_profiler();
    let json = Reporter::from_profiler(&p).to_json();
    assert!(json.contains("\"name\": \"a\\\"b\\\\c\\nd\\te\\u0001f,g\""));
    assert!(json.contains("\"message\": \"a\\\"b\\\\c\\nd\\te\\u0001f,g consumed 80% of frame time\""));
    let parsed: serde_json::Value = serde_json::from_str(&json).unwrap();
    assert_eq!(parsed["widgets"][0]["name"].as_str(), Some("a\"b\\c\nd\te\u{1}f,g"));
    assert_eq!(parsed["frame_number"].as_u64(), Some(1));
}

#[test]
fn json_with_trend_parses() {
    let p = awkward_profiler();
    let trend = TrendReport {
        degraded: vec![WidgetTrend { name: "q\"x".to_string(), previous_avg_us: 0, current_avg_us: 5 }],
        improved: vec![WidgetTrend { name: "y".to_string(), previous_avg_us: 8, current_avg_us: 6 }],
        added: vec![],
        removed: vec![],
        significant_degradation: true,
    };
    let json = Reporter::from_profiler(&p).with_trend(&trend).to_json();
    let parsed: serde_json::Value = serde_json::from_str(&json).unwrap();
    assert_eq!(parsed["trend"]["degraded"][0]["name"].as_str(), Some("q\"x"));
    assert!(parsed["trend"]["degraded"][0]["change_percent"].is_null());
    assert_eq!(parsed["trend"]["improved"][0]["change_percent"].as_f64(), Some(-25.0));
}

#[test]
fn prometheus_escapes_label_values() {
    let p = awkward_profiler();
    let prom = Reporter::from_profiler(&p).to_prometheus();
    assert!(prom.contains("guardian_widget_render_count{widget=\"a\\\"b\\\\c\\nd\te\u{1}f,g\"} 1\n"));
}

#[test]
fn csv_quotes_awkward_names() {
    let p = awkward_profiler();
    let csv = Reporter::from_profiler(&p).to_csv();
    assert!(csv.ends_with("\n\"a\"\"b\\c\nd\te\u{1}f,g\",40,1,3,40,40,false\n"));
    let mut q = RenderProfiler::new(FrameBudget::for_60fps());
    q.set_full_redraw_allowed("plain", true);
    assert!(Reporter::from_profiler(&q).to_csv().ends_with("\nplain,0,0,0,0,0,false\n"));
}
