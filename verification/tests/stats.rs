use ratatui_guardian::{PerWidgetStats, WidgetStatsMap};

fn stats(name: &str, cells: usize) -> PerWidgetStats {
    let mut s = PerWidgetStats::new(name);
    s.last_cells = cells;
    s
}

#[test]
fn insert_then_get_reads_back() {
    let mut m = WidgetStatsMap::new();
    assert!(m.is_empty());
    m.insert("A".to_string(), stats("A", 1));
    m.insert("B".to_string(), stats("B", 2));
    assert_eq!(m.len(), 2);
    assert_eq!(m.get("A").unwrap().last_cells, 1);
    assert_eq!(m.get("B").unwrap().last_cells, 2);
    assert!(m.get("C").is_none());
    assert!(m.contains_key("A"));
    assert!(!m.contains_key("C"));
}

#[test]
fn insert_existing_key_replaces_in_place() {
    let mut m = WidgetStatsMap::new();
    m.insert("A".to_string(), stats("A", 1));
    m.insert("B".to_string(), stats("B", 2));
    m.insert("A".to_string(), stats("A", 9));
    assert_eq!(m.len(), 2);
    assert_eq!(m.get("A").unwrap().last_cells, 9);
    assert_eq!(m.get("B").unwrap().last_cells, 2);
    assert_eq!(m.position("A"), Some(0));
    assert_eq!(m.as_slice()[1].0, "B");
    m.set_value_at(1, stats("B", 7));
    assert_eq!(m.value_at(1).last_cells, 7);
    m.clear();
    assert!(m.is_empty());
}

#[test]
fn fresh_stats_are_zero() {
    let s = PerWidgetStats::new("W");
    assert_eq!(s.name, "W");
    assert_eq!(s.render_count, 0);
    assert_eq!(s.total_time_us, 0);
    assert!(s.avg_time().is_zero());
    assert!(!s.full_redraw_allowed);
}
