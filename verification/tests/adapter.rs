use ratatui_guardian::ratatui_adapter::{GuardianBuffer, GuardianFrame};

#[test]
fn buffer_counts_cells() {
    let mut buf = GuardianBuffer::new("TestWidget");
    buf.set_cell();
    buf.set_cell();
    buf.set_cell();
    let report = buf.finish();
    assert_eq!(report.cells_written, 3);
    assert_eq!(report.name, "TestWidget");
}

#[test]
fn buffer_set_string() {
    let mut buf = GuardianBuffer::new("Label");
    buf.set_string(12);
    assert_eq!(buf.cells(), 12);
    let report = buf.finish();
    assert_eq!(report.cells_written, 12);
}

#[test]
fn frame_lifecycle() {
    let mut frame = GuardianFrame::begin();

    let mut w1 = frame.track_widget("Header");
    w1.set_string(80);
    frame.finish_widget(w1);

    let mut w2 = frame.track_widget("Body");
    w2.set_string(2000);
    frame.finish_widget(w2);

    let report = frame.end();
    assert_eq!(report.widgets.len(), 2);
    assert_eq!(report.total_cells(), 2080);
    assert!(report.total_time.as_nanos() > 0);
}

#[test]
fn empty_frame_has_no_cells() {
    let frame = GuardianFrame::begin();
    let report = frame.end();
    assert!(report.widgets.is_empty());
    assert_eq!(report.total_cells(), 0);
}

#[test]
fn reports_keep_completion_order() {
    let mut frame = GuardianFrame::begin();
    let mut a = frame.track_widget("A");
    let mut b = frame.track_widget("B");
    b.set_cell();
    a.set_string(5);
    a.set_cell();
    frame.finish_widget(b);
    frame.finish_widget(a);
    let report = frame.end();
    assert_eq!(report.widgets[0].name, "B");
    assert_eq!(report.widgets[0].cells_written, 1);
    assert_eq!(report.widgets[1].name, "A");
    assert_eq!(report.widgets[1].cells_written, 6);
    assert_eq!(report.total_cells(), 7);
}
