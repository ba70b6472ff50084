//! Buffer and frame adapters for automatic widget tracking.
//!
//! [`GuardianBuffer`] counts cell writes so widgets need not count them by
//! hand; [`GuardianFrame`] collects the buffers of one frame. Neither depends
//! on a particular terminal buffer type.
use vstd::prelude::*;

use crate::time::{clock_now, elapsed_since, Duration};

verus! {

/// Result of tracking a single widget's render.
#[derive(Debug)]
pub struct WidgetRenderReport {
    /// The widget name passed to [`GuardianBuffer::new`].
    pub name: String,
    /// Total terminal cells written.
    pub cells_written: usize,
    /// Wall-clock render time.
    pub render_time: Duration,
}

/// A tracking wrapper that counts every cell write.
pub struct GuardianBuffer {
    name: String,
    cells_written: usize,
    start: std::time::Instant,
}

/// What a buffer tracks: the widget name and the cells written so far.
pub struct BufferView {
    pub name: String,
    pub cells_written: usize,
}

impl View for GuardianBuffer {
    type V = BufferView;

    closed spec fn view(&self) -> BufferView {
        BufferView { name: self.name, cells_written: self.cells_written }
    }
}

impl GuardianBuffer {
    /// A new tracking buffer for widget `name`, with no cells written.
    pub fn new(name: &str) -> (b: Self)
        ensures
            b@.name@ == name@,
            b@.cells_written == 0,
    {
        GuardianBuffer { name: name.to_owned(), cells_written: 0, start: clock_now() }
    }

    /// Record a single cell write.
    pub fn set_cell(&mut self)
        requires
            old(self)@.cells_written < usize::MAX,
        ensures
            final(self)@ == (BufferView {
                cells_written: (old(self)@.cells_written + 1) as usize,
                ..old(self)@
            }),
    {
        self.cells_written = self.cells_written + 1;
    }

    /// Record `len` cell writes at once (e.g. for a string of length `len`).
    pub fn set_string(&mut self, len: usize)
        requires
            old(self)@.cells_written + len <= usize::MAX,
        ensures
            final(self)@ == (BufferView {
                cells_written: (old(self)@.cells_written + len) as usize,
                ..old(self)@
            }),
    {
        self.cells_written = self.cells_written + len;
    }

    /// Current cell count.
    pub fn cells(&self) -> (n: usize)
        ensures
            n == self@.cells_written,
    {
        self.cells_written
    }

    /// Finish tracking and return the render report; its time is read from
    /// the clock.
    pub fn finish(self) -> (r: WidgetRenderReport)
        ensures
            r.name == self@.name,
            r.cells_written == self@.cells_written,
    {
        let render_time = elapsed_since(&self.start);
        WidgetRenderReport { name: self.name, cells_written: self.cells_written, render_time }
    }
}

/// Tracks the full lifecycle of a frame.
pub struct GuardianFrame {
    start: std::time::Instant,
    widget_buffers: Vec<WidgetRenderReport>,
}

impl View for GuardianFrame {
    type V = Seq<WidgetRenderReport>;

    /// The reports of the widgets finished so far.
    closed spec fn view(&self) -> Seq<WidgetRenderReport> {
        self.widget_buffers@
    }
}

/// Aggregate report for an entire frame.
#[derive(Debug)]
pub struct FrameReport {
    /// Total wall-clock time for the frame.
    pub total_time: Duration,
    /// Per-widget render reports, in order of completion.
    pub widgets: Vec<WidgetRenderReport>,
}

/// The total cells written by the reported widgets.
pub open spec fn reported_cells(ws: Seq<WidgetRenderReport>) -> nat
    decreases ws.len(),
{
    if ws.len() == 0 {
        0
    } else {
        reported_cells(ws.drop_last()) + ws.last().cells_written as nat
    }
}

proof fn lemma_reported_cells_prefix(ws: Seq<WidgetRenderReport>, i: int)
    requires
        0 <= i <= ws.len(),
    ensures
        reported_cells(ws.take(i)) <= reported_cells(ws),
    decreases ws.len() - i,
{
    if i < ws.len() {
        lemma_reported_cells_prefix(ws, i + 1);
        assert(ws.take(i + 1).drop_last() =~= ws.take(i));
    } else {
        assert(ws.take(i) =~= ws);
    }
}

impl GuardianFrame {
    /// Begin tracking a new frame.
    pub fn begin() -> (f: Self)
        ensures
            f@ == Seq::<WidgetRenderReport>::empty(),
    {
        GuardianFrame { start: clock_now(), widget_buffers: Vec::new() }
    }

    /// A tracked buffer for a widget within this frame.
    pub fn track_widget(&mut self, name: &str) -> (b: GuardianBuffer)
        ensures
            final(self)@ == old(self)@,
            b@.name@ == name@,
            b@.cells_written == 0,
    {
        GuardianBuffer::new(name)
    }

    /// Finish a widget buffer and record its report.
    pub fn finish_widget(&mut self, buf: GuardianBuffer)
        ensures
            final(self)@.len() == old(self)@.len() + 1,
            final(self)@.drop_last() == old(self)@,
            final(self)@.last().name == buf@.name,
            final(self)@.last().cells_written == buf@.cells_written,
    {
        let r = buf.finish();
        self.widget_buffers.push(r);
        proof {
            assert(self.widget_buffers@.drop_last() =~= old(self)@);
        }
    }

    /// Finish the frame and return all widget reports with the total time,
    /// read from the clock.
    pub fn end(self) -> (r: FrameReport)
        ensures
            r.widgets@ == self@,
    {
        let total_time = elapsed_since(&self.start);
        FrameReport { total_time, widgets: self.widget_buffers }
    }
}

impl FrameReport {
    /// Total cells written across all widgets.
    pub fn total_cells(&self) -> (n: usize)
        requires
            reported_cells(self.widgets@) <= usize::MAX,
        ensures
            n == reported_cells(self.widgets@),
    {
        let mut n: usize = 0;
        let mut i: usize = 0;
        while i < self.widgets.len()
            invariant
                i <= self.widgets@.len(),
                reported_cells(self.widgets@) <= usize::MAX,
                n == reported_cells(self.widgets@.take(i as int)),
            decreases self.widgets.len() - i,
        {
            proof {
                lemma_reported_cells_prefix(self.widgets@, i + 1);
                assert(self.widgets@.take(i + 1).drop_last() =~= self.widgets@.take(i as int));
            }
            n = n + self.widgets[i].cells_written;
            i = i + 1;
        }
        proof {
            assert(self.widgets@.take(self.widgets@.len() as int) =~= self.widgets@);
        }
        n
    }
}

} // verus!
