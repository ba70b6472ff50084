//! Per-widget render profiling.
//!
//! Tracks how long each widget takes to render, how many cells it writes,
//! and whether it is doing full redraws or incremental updates.
use vstd::prelude::*;

use crate::budget::{BudgetViolation, FrameBudget};
use crate::detector::{detect_spec, micros_u64, WasteDetector, WasteFinding, WidgetSample};
use crate::stats::{distinct_keys, stats_index, stats_lookup, PerWidgetStats, WidgetStatsMap};
use crate::error::GuardianError;
use crate::time::{clock_now, elapsed_since, Duration};
use crate::trend::{compare_stats, is_trend_report, TrendReport};

verus! {

/// How many frames the profiler remembers.
pub const MAX_HISTORY: usize = 120;

/// A single completed frame's data.
#[derive(Debug)]
pub struct FrameRecord {
    pub total_time: Duration,
    pub widget_times: Vec<WidgetSample>,
    pub violations: Vec<BudgetViolation>,
}

/// What a frame record holds.
pub struct RecordView {
    pub total_time: Duration,
    pub widgets: Seq<WidgetSample>,
    pub violations: Seq<BudgetViolation>,
}

impl View for FrameRecord {
    type V = RecordView;

    open spec fn view(&self) -> RecordView {
        RecordView {
            total_time: self.total_time,
            widgets: self.widget_times@,
            violations: self.violations@,
        }
    }
}

/// The total number of cells that the widgets wrote.
pub open spec fn cells_sum(ws: Seq<WidgetSample>) -> nat
    decreases ws.len(),
{
    if ws.len() == 0 {
        0
    } else {
        cells_sum(ws.drop_last()) + ws.last().2 as nat
    }
}

/// A prefix of the widgets wrote no more cells than all of them.
pub proof fn lemma_cells_sum_prefix(ws: Seq<WidgetSample>, i: int)
    requires
        0 <= i <= ws.len(),
    ensures
        cells_sum(ws.take(i)) <= cells_sum(ws),
    decreases ws.len() - i,
{
    if i < ws.len() {
        lemma_cells_sum_prefix(ws, i + 1);
        assert(ws.take(i + 1).drop_last() =~= ws.take(i));
    } else {
        assert(ws.take(i) =~= ws);
    }
}

/// The total number of cells written by the widgets.
pub fn total_cells(ws: &[WidgetSample]) -> (n: usize)
    requires
        cells_sum(ws@) <= usize::MAX,
    ensures
        n == cells_sum(ws@),
{
    let mut n: usize = 0;
    let mut i: usize = 0;
    while i < ws.len()
        invariant
            i <= ws@.len(),
            cells_sum(ws@) <= usize::MAX,
            n == cells_sum(ws@.take(i as int)),
        decreases ws.len() - i,
    {
        proof {
            lemma_cells_sum_prefix(ws@, i + 1);
            assert(ws@.take(i + 1).drop_last() =~= ws@.take(i as int));
        }
        n = n + ws[i].2;
        i = i + 1;
    }
    proof {
        assert(ws@.take(ws@.len() as int) =~= ws@);
    }
    n
}

/// The sequence holding the violation, if there is one.
pub open spec fn opt_violation(v: Option<BudgetViolation>) -> Seq<BudgetViolation> {
    match v {
        Some(x) => seq![x],
        None => Seq::empty(),
    }
}

/// `a + b`, capped at `u64::MAX`.
pub open spec fn saturating_sum(a: u64, b: u64) -> u64 {
    if a + b > u64::MAX {
        u64::MAX
    } else {
        (a + b) as u64
    }
}

/// The distance between two cell counts.
pub open spec fn cell_distance(a: usize, b: usize) -> nat {
    if a >= b {
        (a - b) as nat
    } else {
        (b - a) as nat
    }
}

/// A widget's statistics after it rendered `cells` cells in `elapsed`: the
/// render counts as a full redraw when the widget had rendered before and the
/// cell count moved by more than half of the last count; the total time
/// saturates at `u64::MAX` microseconds.
pub open spec fn record_render(s: PerWidgetStats, cells: usize, elapsed: Duration) -> PerWidgetStats {
    let us = micros_u64(elapsed);
    PerWidgetStats {
        prev_cells: s.last_cells,
        last_cells: cells,
        last_was_full_redraw: s.render_count > 0 && cell_distance(cells, s.last_cells) > s.last_cells
            / 2,
        total_time_us: saturating_sum(s.total_time_us, us),
        render_count: (s.render_count + 1) as u64,
        peak_time_us: if us > s.peak_time_us {
            us
        } else {
            s.peak_time_us
        },
        ..s
    }
}

/// The profiler's state, as its contracts see it.
pub struct ProfilerModel {
    pub budget: FrameBudget,
    pub frame_number: u64,
    /// Whether a frame has been begun (and its start time taken).
    pub frame_open: bool,
    /// The names of the widgets begun and not yet ended, innermost last.
    pub stack: Seq<String>,
    /// The widgets ended in the current frame.
    pub current: Seq<WidgetSample>,
    pub stats: Seq<(String, PerWidgetStats)>,
    /// The records of the last frames, oldest first.
    pub history: Seq<RecordView>,
    /// The findings of the last ended frame.
    pub findings: Seq<WasteFinding>,
    pub unmatched: u64,
    pub max_depth: usize,
    pub depth_violation: Option<usize>,
    pub max_history: usize,
}

impl ProfilerModel {
    /// The state of a new profiler.
    pub open spec fn initial(budget: FrameBudget) -> ProfilerModel {
        ProfilerModel {
            budget,
            frame_number: 0,
            frame_open: false,
            stack: Seq::empty(),
            current: Seq::empty(),
            stats: Seq::empty(),
            history: Seq::empty(),
            findings: Seq::empty(),
            unmatched: 0,
            max_depth: 0,
            depth_violation: None,
            max_history: MAX_HISTORY,
        }
    }

    /// The state after `begin_frame`.
    pub open spec fn after_begin_frame(self) -> ProfilerModel {
        ProfilerModel {
            frame_number: (self.frame_number + 1) as u64,
            frame_open: true,
            current: Seq::empty(),
            max_depth: 0,
            depth_violation: None,
            ..self
        }
    }

    /// The state after `begin_widget` pushed `name`.
    pub open spec fn after_begin_widget(self, name: String) -> ProfilerModel {
        let depth = self.stack.len() + 1;
        ProfilerModel {
            stack: self.stack.push(name),
            max_depth: if depth > self.max_depth {
                depth as usize
            } else {
                self.max_depth
            },
            depth_violation: if depth > self.budget.max_widget_depth {
                Some(depth as usize)
            } else {
                self.depth_violation
            },
            ..self
        }
    }

    /// Whether `end_widget` can count without overflowing.
    pub open spec fn can_end_widget(self) -> bool {
        if self.stack.len() == 0 {
            self.unmatched < u64::MAX
        } else {
            match stats_lookup(self.stats, self.stack.last()@) {
                Some(s) => s.render_count < u64::MAX,
                None => true,
            }
        }
    }

    /// The state after `end_widget` with `cells` cells, the widget having
    /// taken `elapsed`: with no widget open the unmatched count goes up;
    /// otherwise the innermost widget is closed, joins the current frame and
    /// its statistics record the render.
    pub open spec fn after_end_widget(self, cells: usize, elapsed: Duration) -> ProfilerModel {
        if self.stack.len() == 0 {
            ProfilerModel { unmatched: (self.unmatched + 1) as u64, ..self }
        } else {
            let name = self.stack.last();
            let before = match stats_lookup(self.stats, name@) {
                Some(s) => s,
                None => PerWidgetStats::fresh(name),
            };
            ProfilerModel {
                stack: self.stack.drop_last(),
                current: self.current.push((name, elapsed, cells)),
                stats: WidgetStatsMap::inserted(
                    self.stats,
                    name,
                    PerWidgetStats { name, ..record_render(before, cells, elapsed) },
                ),
                ..self
            }
        }
    }

    /// The violations of a frame that took `total`.
    pub open spec fn frame_violations(self, total: Duration) -> Seq<BudgetViolation> {
        opt_violation(self.budget.time_verdict(total)) + opt_violation(
            self.budget.diff_verdict(cells_sum(self.current) as usize),
        )
    }

    /// The state after `end_frame` for a frame that took `total`: its record
    /// joins the history (dropping the oldest when the history is full), and
    /// the waste findings of the frame replace the previous ones.
    pub open spec fn after_end_frame(self, total: Duration) -> ProfilerModel {
        let kept = if self.history.len() >= self.max_history {
            self.history.drop_first()
        } else {
            self.history
        };
        ProfilerModel {
            history: kept.push(
                RecordView {
                    total_time: total,
                    widgets: self.current,
                    violations: self.frame_violations(total),
                },
            ),
            findings: detect_spec(
                self.frame_number,
                total,
                self.current,
                self.stats,
                self.budget,
                self.max_depth,
            ),
            ..self
        }
    }

    /// The state after `reset`: everything but the budget is cleared.
    pub open spec fn after_reset(self) -> ProfilerModel {
        ProfilerModel::initial(self.budget)
    }
}

/// Serializable snapshot of profiler state for persistence.
#[derive(Debug)]
pub struct ProfilerSnapshot {
    pub frame_number: u64,
    pub budget_max_render_time_us: u64,
    pub budget_max_diff_cells: usize,
    pub budget_max_widget_depth: usize,
    pub widget_stats: Vec<PerWidgetStats>,
    pub unmatched_end_widget_count: u64,
    pub last_frame_max_depth: usize,
    pub last_frame_time_us: Option<u64>,
    pub last_frame_total_cells: usize,
}

/// What a snapshot holds.
pub struct SnapshotView {
    pub frame_number: u64,
    pub budget_max_render_time_us: u64,
    pub budget_max_diff_cells: usize,
    pub budget_max_widget_depth: usize,
    pub widget_stats: Seq<PerWidgetStats>,
    pub unmatched_end_widget_count: u64,
    pub last_frame_max_depth: usize,
    pub last_frame_time_us: Option<u64>,
    pub last_frame_total_cells: usize,
}

impl View for ProfilerSnapshot {
    type V = SnapshotView;

    open spec fn view(&self) -> SnapshotView {
        SnapshotView {
            frame_number: self.frame_number,
            budget_max_render_time_us: self.budget_max_render_time_us,
            budget_max_diff_cells: self.budget_max_diff_cells,
            budget_max_widget_depth: self.budget_max_widget_depth,
            widget_stats: self.widget_stats@,
            unmatched_end_widget_count: self.unmatched_end_widget_count,
            last_frame_max_depth: self.last_frame_max_depth,
            last_frame_time_us: self.last_frame_time_us,
            last_frame_total_cells: self.last_frame_total_cells,
        }
    }
}

/// The table built by inserting each of `list` under its own name, in order;
/// a later entry with the same name replaces an earlier one.
pub open spec fn stats_from_list(list: Seq<PerWidgetStats>) -> Seq<(String, PerWidgetStats)>
    decreases list.len(),
{
    if list.len() == 0 {
        Seq::empty()
    } else {
        WidgetStatsMap::inserted(stats_from_list(list.drop_last()), list.last().name, list.last())
    }
}

impl ProfilerModel {
    /// The snapshot of this state.
    pub open spec fn snapshot(self) -> SnapshotView {
        SnapshotView {
            frame_number: self.frame_number,
            budget_max_render_time_us: micros_u64(self.budget.max_render_time),
            budget_max_diff_cells: self.budget.max_diff_cells,
            budget_max_widget_depth: self.budget.max_widget_depth,
            widget_stats: self.stats.map_values(|e: (String, PerWidgetStats)| e.1),
            unmatched_end_widget_count: self.unmatched,
            last_frame_max_depth: self.max_depth,
            last_frame_time_us: if self.history.len() == 0 {
                None
            } else {
                Some(micros_u64(self.history.last().total_time))
            },
            last_frame_total_cells: if self.history.len() == 0 {
                0
            } else {
                cells_sum(self.history.last().widgets) as usize
            },
        }
    }

    /// The state restored from a snapshot, with the given budget.
    pub open spec fn restored(snap: SnapshotView, budget: FrameBudget) -> ProfilerModel {
        ProfilerModel {
            frame_number: snap.frame_number,
            stats: stats_from_list(snap.widget_stats),
            unmatched: snap.unmatched_end_widget_count,
            max_depth: snap.last_frame_max_depth,
            ..ProfilerModel::initial(budget)
        }
    }
}

/// The main profiler. Owns the budget and collects per-frame and per-widget
/// data.
pub struct RenderProfiler {
    budget: FrameBudget,
    frame_number: u64,
    frame_start: Option<std::time::Instant>,
    widget_stack: Vec<(String, std::time::Instant)>,
    current_frame_widgets: Vec<WidgetSample>,
    widget_stats: WidgetStatsMap,
    history: Vec<FrameRecord>,
    detector: WasteDetector,
    max_history: usize,
    /// Number of times `end_widget` was called with no widget open.
    unmatched_end_widget_count: u64,
    /// Deepest nesting seen in the current frame.
    current_frame_max_depth: usize,
    /// The depth at which the current frame last went over the depth limit.
    depth_violation_seen: Option<usize>,
}

impl View for RenderProfiler {
    type V = ProfilerModel;

    closed spec fn view(&self) -> ProfilerModel {
        ProfilerModel {
            budget: self.budget,
            frame_number: self.frame_number,
            frame_open: self.frame_start.is_some(),
            stack: self.widget_stack@.map_values(|e: (String, std::time::Instant)| e.0),
            current: self.current_frame_widgets@,
            stats: self.widget_stats@,
            history: self.history@.map_values(|r: FrameRecord| r@),
            findings: self.detector@,
            unmatched: self.unmatched_end_widget_count,
            max_depth: self.current_frame_max_depth,
            depth_violation: self.depth_violation_seen,
            max_history: self.max_history,
        }
    }
}

/// A copy of the widget samples.
fn clone_samples(ws: &Vec<WidgetSample>) -> (r: Vec<WidgetSample>)
    ensures
        r@ == ws@,
{
    let mut r: Vec<WidgetSample> = Vec::new();
    let mut i: usize = 0;
    while i < ws.len()
        invariant
            i <= ws@.len(),
            r@ == ws@.take(i as int),
        decreases ws.len() - i,
    {
        let s = (ws[i].0.clone(), ws[i].1, ws[i].2);
        r.push(s);
        proof {
            assert(r@ =~= ws@.take(i + 1));
        }
        i = i + 1;
    }
    proof {
        assert(ws@.take(ws@.len() as int) =~= ws@);
    }
    r
}

impl RenderProfiler {
    /// The profiler's standing invariant: the history is bounded, and every
    /// remembered frame's cell total fits in a `usize`.
    pub open spec fn model_wf(m: ProfilerModel) -> bool {
        &&& m.max_history == MAX_HISTORY
        &&& m.history.len() <= m.max_history
        &&& distinct_keys(m.stats)
        &&& forall|i: int| 0 <= i < m.stats.len() ==> (#[trigger] m.stats[i]).0 == m.stats[i].1.name
        &&& forall|i: int|
            0 <= i < m.history.len() ==> cells_sum(#[trigger] m.history[i].widgets) <= usize::MAX
    }

    /// The profiler's standing invariant, kept by every operation.
    #[verifier::type_invariant]
    spec fn wf(self) -> bool {
        Self::model_wf(self@)
    }

    /// Create a new profiler with the given budget.
    pub fn new(budget: FrameBudget) -> (p: Self)
        ensures
            Self::model_wf(p@),
            p@ == ProfilerModel::initial(budget),
    {
        let p = RenderProfiler {
            budget,
            frame_number: 0,
            frame_start: None,
            widget_stack: Vec::new(),
            current_frame_widgets: Vec::new(),
            widget_stats: WidgetStatsMap::new(),
            history: Vec::new(),
            detector: WasteDetector::new(),
            max_history: MAX_HISTORY,
            unmatched_end_widget_count: 0,
            current_frame_max_depth: 0,
            depth_violation_seen: None,
        };
        proof {
            assert(p@.stack =~= Seq::<String>::empty());
            assert(p@.history =~= Seq::<RecordView>::empty());
            use_type_invariant(&p);
        }
        p
    }

    /// The configured budget.
    pub fn budget(&self) -> (b: &FrameBudget)
        ensures
            *b == self@.budget,
    {
        &self.budget
    }

    /// Begin a new frame.
    pub fn begin_frame(&mut self)
        requires
            old(self)@.frame_number < u64::MAX,
        ensures
            Self::model_wf(final(self)@),
            final(self)@ == old(self)@.after_begin_frame(),
    {
        proof {
            use_type_invariant(&*self);
        }
        self.frame_number = self.frame_number + 1;
        self.frame_start = Some(clock_now());
        self.current_frame_widgets = Vec::new();
        self.current_frame_max_depth = 0;
        self.depth_violation_seen = None;
        proof {
            assert(self@.current =~= Seq::<WidgetSample>::empty());
        }
        proof {
            use_type_invariant(&*self);
        }
    }

    /// Begin timing a widget. Nesting is tracked for depth checks.
    pub fn begin_widget(&mut self, name: &str)
        requires
            old(self)@.stack.len() < usize::MAX,
        ensures
            Self::model_wf(final(self)@),
            final(self)@.stack.last()@ == name@,
            final(self)@ == old(self)@.after_begin_widget(final(self)@.stack.last()),
    {
        proof {
            use_type_invariant(&*self);
        }
        let depth = self.widget_stack.len() + 1;
        if depth > self.current_frame_max_depth {
            self.current_frame_max_depth = depth;
        }
        if self.budget.check_depth(depth).is_some() {
            self.depth_violation_seen = Some(depth);
        }
        let key = name.to_owned();
        let ghost pushed = key;
        let mut stack: Vec<(String, std::time::Instant)> = Vec::new();
        std::mem::swap(&mut stack, &mut self.widget_stack);
        stack.push((key, clock_now()));
        self.widget_stack = stack;
        proof {
            assert(self@.stack =~= old(self)@.stack.push(pushed));
        }
        proof {
            use_type_invariant(&*self);
        }
    }

    /// End timing a widget as having taken `elapsed` and written
    /// `cells_written` cells. With no widget open, this only counts the
    /// unmatched call.
    pub fn end_widget_with_time(&mut self, cells_written: usize, elapsed: Duration)
        requires
            old(self)@.can_end_widget(),
        ensures
            Self::model_wf(final(self)@),
            final(self)@ == old(self)@.after_end_widget(cells_written, elapsed),
    {
        proof {
            use_type_invariant(&*self);
        }
        if self.widget_stack.len() == 0 {
            self.unmatched_end_widget_count = self.unmatched_end_widget_count + 1;
            proof {
                use_type_invariant(&*self);
            }
            return;
        }
        let mut stack: Vec<(String, std::time::Instant)> = Vec::new();
        std::mem::swap(&mut stack, &mut self.widget_stack);
        let (name, _start) = stack.pop().unwrap();
        self.widget_stack = stack;
        proof {
            assert(self@.stack =~= old(self)@.stack.drop_last());
            assert(name == old(self)@.stack.last());
        }
        let mut current: Vec<WidgetSample> = Vec::new();
        std::mem::swap(&mut current, &mut self.current_frame_widgets);
        current.push((name.clone(), elapsed, cells_written));
        self.current_frame_widgets = current;
        let before = match self.widget_stats.position(name.as_str()) {
            Some(i) => self.widget_stats.value_at(i).clone(),
            None => PerWidgetStats {
                name: name.clone(),
                total_time_us: 0,
                render_count: 0,
                last_cells: 0,
                peak_time_us: 0,
                prev_cells: 0,
                last_was_full_redraw: false,
                full_redraw_allowed: false,
            },
        };
        let full_redraw = if before.render_count > 0 {
            let diff = if cells_written >= before.last_cells {
                cells_written - before.last_cells
            } else {
                before.last_cells - cells_written
            };
            diff > before.last_cells / 2
        } else {
            false
        };
        let us: u64 = #[verifier::truncate] (elapsed.as_micros() as u64);
        let after = PerWidgetStats {
            name: name.clone(),
            total_time_us: before.total_time_us.saturating_add(us),
            render_count: before.render_count + 1,
            last_cells: cells_written,
            peak_time_us: if us > before.peak_time_us {
                us
            } else {
                before.peak_time_us
            },
            prev_cells: before.last_cells,
            last_was_full_redraw: full_redraw,
            full_redraw_allowed: before.full_redraw_allowed,
        };
        let mut stats = WidgetStatsMap::new();
        std::mem::swap(&mut stats, &mut self.widget_stats);
        stats.insert(name, after);
        self.widget_stats = stats;
        proof {
            use_type_invariant(&*self);
        }
    }

    /// End timing a widget; `cells_written` is the number of terminal cells it
    /// touched. Its render time is read from the clock.
    pub fn end_widget(&mut self, cells_written: usize)
        requires
            old(self)@.can_end_widget(),
        ensures
            Self::model_wf(final(self)@),
            exists|elapsed: Duration|
                final(self)@ == old(self)@.after_end_widget(cells_written, elapsed),
    {
        let n = self.widget_stack.len();
        let elapsed = if n == 0 {
            Duration::zero()
        } else {
            elapsed_since(&self.widget_stack[n - 1].1)
        };
        self.end_widget_with_time(cells_written, elapsed);
    }
    /// End the current frame as having taken `total`: check the budget,
    /// run waste detection, and record the frame. Returns `total`.
    pub fn end_frame_with_time(&mut self, total: Duration) -> (d: Duration)
        requires
            cells_sum(old(self)@.current) <= usize::MAX,
        ensures
            Self::model_wf(final(self)@),
            d == total,
            final(self)@ == old(self)@.after_end_frame(total),
    {
        proof {
            use_type_invariant(&*self);
        }
        let mut violations: Vec<BudgetViolation> = Vec::new();
        match self.budget.check_time(total) {
            Some(v) => violations.push(v),
            None => {},
        }
        let cells = total_cells(self.current_frame_widgets.as_slice());
        match self.budget.check_diff(cells) {
            Some(v) => violations.push(v),
            None => {},
        }
        proof {
            assert(violations@ =~= old(self)@.frame_violations(total));
        }
        let findings = self.detector.detect(
            self.frame_number,
            total,
            self.current_frame_widgets.as_slice(),
            &self.widget_stats,
            &self.budget,
            self.current_frame_max_depth,
        );
        let record = FrameRecord {
            total_time: total,
            widget_times: clone_samples(&self.current_frame_widgets),
            violations,
        };
        let mut history: Vec<FrameRecord> = Vec::new();
        std::mem::swap(&mut history, &mut self.history);
        let ghost old_history = history@;
        if history.len() >= self.max_history {
            history.remove(0);
            proof {
                assert(history@.map_values(|r: FrameRecord| r@) =~= old_history.map_values(
                    |r: FrameRecord| r@,
                ).drop_first());
            }
        }
        let ghost kept = history@;
        history.push(record);
        proof {
            assert(history@.map_values(|r: FrameRecord| r@) =~= kept.map_values(
                |r: FrameRecord| r@,
            ).push(record@));
        }
        self.history = history;
        let mut detector = WasteDetector::new();
        std::mem::swap(&mut detector, &mut self.detector);
        detector.stash_findings(self.frame_number, findings);
        self.detector = detector;
        proof {
            use_type_invariant(&*self);
        }
        total
    }

    /// End the current frame and return its total time, read from the clock
    /// (zero when no frame was begun).
    pub fn end_frame(&mut self) -> (d: Duration)
        requires
            cells_sum(old(self)@.current) <= usize::MAX,
        ensures
            Self::model_wf(final(self)@),
            !old(self)@.frame_open ==> d@ == 0,
            final(self)@ == old(self)@.after_end_frame(d),
    {
        let total = match &self.frame_start {
            Some(start) => elapsed_since(start),
            None => Duration::zero(),
        };
        self.end_frame_with_time(total)
    }

    /// Per-widget statistics.
    pub fn widget_stats(&self) -> (m: &WidgetStatsMap)
        ensures
            m@ == self@.stats,
    {
        &self.widget_stats
    }

    /// Last frame number.
    pub fn last_frame(&self) -> (n: u64)
        ensures
            n == self@.frame_number,
    {
        self.frame_number
    }

    /// The total time of the last recorded frame.
    pub fn last_frame_time(&self) -> (t: Option<Duration>)
        ensures
            t == (if self@.history.len() == 0 {
                None
            } else {
                Some(self@.history.last().total_time)
            }),
    {
        let n = self.history.len();
        if n == 0 {
            None
        } else {
            Some(self.history[n - 1].total_time)
        }
    }

    /// Violations from the last recorded frame.
    pub fn last_violations(&self) -> (v: &[BudgetViolation])
        ensures
            v@ == (if self@.history.len() == 0 {
                Seq::empty()
            } else {
                self@.history.last().violations
            }),
    {
        let n = self.history.len();
        if n == 0 {
            &[]
        } else {
            self.history[n - 1].violations.as_slice()
        }
    }

    /// Waste findings from the last ended frame.
    pub fn last_findings(&self) -> (f: &[WasteFinding])
        ensures
            f@ == self@.findings,
    {
        self.detector.last_findings()
    }

    /// The remembered frames, oldest first.
    pub(crate) fn history(&self) -> (h: &[FrameRecord])
        ensures
            h@.map_values(|r: FrameRecord| r@) == self@.history,
    {
        self.history.as_slice()
    }

    /// The total cells written by the widgets of the last recorded frame.
    pub fn last_frame_total_cells(&self) -> (n: usize)
        ensures
            n == (if self@.history.len() == 0 {
                0
            } else {
                cells_sum(self@.history.last().widgets)
            }),
    {
        proof {
            use_type_invariant(&*self);
        }
        let n = self.history.len();
        if n == 0 {
            0
        } else {
            proof {
                assert(cells_sum(self@.history[n - 1].widgets) <= usize::MAX);
            }
            total_cells(self.history[n - 1].widget_times.as_slice())
        }
    }

    /// Number of `end_widget` calls made with no widget open.
    pub fn unmatched_end_widget_count(&self) -> (n: u64)
        ensures
            n == self@.unmatched,
    {
        self.unmatched_end_widget_count
    }

    /// Deepest nesting seen in the current (or last) frame.
    pub fn last_frame_max_depth(&self) -> (n: usize)
        ensures
            n == self@.max_depth,
    {
        self.current_frame_max_depth
    }

    /// Mark a widget as allowed (or not) to do full redraws without
    /// triggering the heuristic; a widget not seen yet gets fresh statistics.
    pub fn set_full_redraw_allowed(&mut self, widget_name: &str, allowed: bool)
        ensures
            Self::model_wf(final(self)@),
            final(self)@ == (ProfilerModel { stats: final(self)@.stats, ..old(self)@ }),
            stats_lookup(final(self)@.stats, widget_name@) matches Some(s)
                && s.full_redraw_allowed == allowed,
            forall|k: Seq<char>|
                k != widget_name@ ==> #[trigger] stats_lookup(final(self)@.stats, k)
                    == stats_lookup(old(self)@.stats, k),
            stats_lookup(old(self)@.stats, widget_name@) matches Some(s) ==> {
                let i = stats_index(old(self)@.stats, widget_name@);
                final(self)@.stats == old(self)@.stats.update(
                    i,
                    (old(self)@.stats[i].0, PerWidgetStats { full_redraw_allowed: allowed, ..s }),
                )
            },
            stats_lookup(old(self)@.stats, widget_name@) is None ==> {
                let k = final(self)@.stats.last().0;
                &&& k@ == widget_name@
                &&& final(self)@.stats == old(self)@.stats.push(
                    (k, PerWidgetStats { full_redraw_allowed: allowed, ..PerWidgetStats::fresh(k) }),
                )
            },
    {
        proof {
            use_type_invariant(&*self);
        }
        match self.widget_stats.position(widget_name) {
            Some(i) => {
                let current = self.widget_stats.value_at(i);
                let updated = PerWidgetStats { full_redraw_allowed: allowed, ..current.clone() };
                let mut stats = WidgetStatsMap::new();
                std::mem::swap(&mut stats, &mut self.widget_stats);
                stats.set_value_at(i, updated);
                self.widget_stats = stats;
            },
            None => {
                let key = widget_name.to_owned();
                let stats = PerWidgetStats {
                    name: key.clone(),
                    total_time_us: 0,
                    render_count: 0,
                    last_cells: 0,
                    peak_time_us: 0,
                    prev_cells: 0,
                    last_was_full_redraw: false,
                    full_redraw_allowed: allowed,
                };
                let mut table = WidgetStatsMap::new();
                std::mem::swap(&mut table, &mut self.widget_stats);
                table.insert(key, stats);
                self.widget_stats = table;
            },
        }
        proof {
            assert forall|k: Seq<char>| k != widget_name@ implies #[trigger] stats_lookup(
                self@.stats,
                k,
            ) == stats_lookup(old(self)@.stats, k) by {
                assert(self.widget_stats.lookup(k) == old(self).widget_stats.lookup(k));
            }
        }
        proof {
            use_type_invariant(&*self);
        }
    }

    /// The snapshot of the profiler's state that persistence stores.
    pub fn to_snapshot(&self) -> (snap: ProfilerSnapshot)
        ensures
            snap@ == self@.snapshot(),
    {
        proof {
            use_type_invariant(&*self);
        }
        let n = self.widget_stats.len();
        let mut values: Vec<PerWidgetStats> = Vec::new();
        let mut i: usize = 0;
        while i < n
            invariant
                n == self.widget_stats@.len(),
                i <= n,
                values@ == self.widget_stats@.take(i as int).map_values(
                    |e: (String, PerWidgetStats)| e.1,
                ),
            decreases n - i,
        {
            values.push(self.widget_stats.value_at(i).clone());
            proof {
                assert(values@ =~= self.widget_stats@.take(i + 1).map_values(
                    |e: (String, PerWidgetStats)| e.1,
                ));
            }
            i = i + 1;
        }
        proof {
            assert(self.widget_stats@.take(n as int) =~= self.widget_stats@);
        }
        let last_time = match self.last_frame_time() {
            Some(t) => Some(#[verifier::truncate] (t.as_micros() as u64)),
            None => None,
        };
        ProfilerSnapshot {
            frame_number: self.frame_number,
            budget_max_render_time_us: #[verifier::truncate] (self.budget.max_render_time.as_micros() as u64),
            budget_max_diff_cells: self.budget.max_diff_cells,
            budget_max_widget_depth: self.budget.max_widget_depth,
            widget_stats: values,
            unmatched_end_widget_count: self.unmatched_end_widget_count,
            last_frame_max_depth: self.current_frame_max_depth,
            last_frame_time_us: last_time,
            last_frame_total_cells: self.last_frame_total_cells(),
        }
    }

    /// Rebuild a profiler from a snapshot, with the given budget: the frame
    /// number, the widget statistics (keyed by their names), the unmatched
    /// count and the deepest nesting come from the snapshot; everything else
    /// starts empty.
    pub fn from_snapshot(snapshot: ProfilerSnapshot, budget: FrameBudget) -> (p: Self)
        ensures
            Self::model_wf(p@),
            p@ == ProfilerModel::restored(snapshot@, budget),
    {
        let ghost list = snapshot.widget_stats@;
        let ProfilerSnapshot {
            frame_number,
            widget_stats: list_vec,
            unmatched_end_widget_count,
            last_frame_max_depth,
            ..
        } = snapshot;
        let mut stats = WidgetStatsMap::new();
        let mut rest = list_vec;
        let ghost mut k: int = 0;
        proof {
            assert(rest@ =~= list.skip(0));
            assert(list.take(0) =~= Seq::<PerWidgetStats>::empty());
        }
        while rest.len() > 0
            invariant
                0 <= k <= list.len(),
                rest@ == list.skip(k),
                stats@ == stats_from_list(list.take(k)),
                distinct_keys(stats@),
                forall|i: int| 0 <= i < stats@.len() ==> (#[trigger] stats@[i]).0 == stats@[i].1.name,
            decreases rest@.len(),
        {
            let ws = rest.remove(0);
            proof {
                assert(ws == list[k]);
                assert(list.take(k + 1).drop_last() =~= list.take(k));
            }
            let key = ws.name.clone();
            stats.insert(key, ws);
            proof {
                k = k + 1;
                assert(rest@ =~= list.skip(k));
            }
        }
        proof {
            assert(list.take(k) =~= list);
        }
        let p = RenderProfiler {
            budget,
            frame_number,
            frame_start: None,
            widget_stack: Vec::new(),
            current_frame_widgets: Vec::new(),
            widget_stats: stats,
            history: Vec::new(),
            detector: WasteDetector::new(),
            max_history: MAX_HISTORY,
            unmatched_end_widget_count,
            current_frame_max_depth: last_frame_max_depth,
            depth_violation_seen: None,
        };
        proof {
            assert(p@.stack =~= Seq::<String>::empty());
            assert(p@.history =~= Seq::<RecordView>::empty());
            use_type_invariant(&p);
        }
        p
    }

    /// Compare this profiler's state against a previous one to detect
    /// trends. `significance_threshold` is in parts per million of the
    /// previous average (250 000 flags changes above 25%). The comparison
    /// always succeeds.
    pub fn compare(&self, previous: &RenderProfiler, significance_threshold: u64) -> (r: Result<
        TrendReport,
        GuardianError,
    >)
        ensures
            r matches Ok(t) && is_trend_report(t@, self@.stats, previous@.stats, significance_threshold),
    {
        Ok(compare_stats(&self.widget_stats, &previous.widget_stats, significance_threshold))
    }

    /// Reset all accumulated profiler state, keeping the same budget.
    pub fn reset(&mut self)
        ensures
            Self::model_wf(final(self)@),
            final(self)@ == old(self)@.after_reset(),
    {
        proof {
            use_type_invariant(&*self);
        }
        self.frame_number = 0;
        self.frame_start = None;
        self.widget_stack = Vec::new();
        self.current_frame_widgets = Vec::new();
        self.widget_stats = WidgetStatsMap::new();
        self.history = Vec::new();
        self.detector = WasteDetector::new();
        self.unmatched_end_widget_count = 0;
        self.current_frame_max_depth = 0;
        self.depth_violation_seen = None;
        proof {
            assert(self@.stack =~= Seq::<String>::empty());
            assert(self@.history =~= Seq::<RecordView>::empty());
            assert(self@.current =~= Seq::<WidgetSample>::empty());
        }
        proof {
            use_type_invariant(&*self);
        }
    }
}

} // verus!
