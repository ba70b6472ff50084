//! Waste detection.
//!
//! Identifies common TUI rendering anti-patterns:
//! - a single widget taking most of the frame time;
//! - full-screen redraws for tiny changes;
//! - widgets that appear to allocate on every frame;
//! - excessively nested layouts.
use vstd::prelude::*;

use crate::budget::{DetectionConfig, FrameBudget, PPM};
use crate::stats::{stats_lookup, PerWidgetStats, WidgetStatsMap};
use crate::text::{decimal, push_decimal, push_str};
use crate::time::Duration;

verus! {

/// What kind of waste was detected.
#[derive(Debug, PartialEq, Eq)]
pub enum WasteCategory {
    /// A widget touched nearly every cell but likely only needed to update a few.
    FullRedrawForSmallChange { widget: String, cells_written: usize, estimated_needed: usize },
    /// Layout nesting exceeds the configured depth limit.
    DeepNesting { depth: usize, limit: usize },
    /// A widget's render time is suspiciously high for the number of cells,
    /// suggesting per-frame allocation.
    SuspectedAllocation { widget: String, render_time_us: u64, cells: usize },
    /// A single widget dominates frame time.
    Hog { widget: String, fraction_percent: u64 },
}

/// How bad it is.
#[derive(Debug, Clone, Copy, PartialEq, Eq, Structural)]
pub enum Severity {
    Hint,
    Warning,
    Critical,
}

/// A single waste finding for a specific frame.
#[derive(Debug)]
pub struct WasteFinding {
    pub frame: u64,
    pub category: WasteCategory,
    pub severity: Severity,
}

impl Clone for WasteCategory {
    fn clone(&self) -> (r: Self)
        ensures
            r == *self,
    {
        match self {
            WasteCategory::FullRedrawForSmallChange { widget, cells_written, estimated_needed } =>
                WasteCategory::FullRedrawForSmallChange {
                widget: widget.clone(),
                cells_written: *cells_written,
                estimated_needed: *estimated_needed,
            },
            WasteCategory::DeepNesting { depth, limit } => WasteCategory::DeepNesting {
                depth: *depth,
                limit: *limit,
            },
            WasteCategory::SuspectedAllocation { widget, render_time_us, cells } =>
                WasteCategory::SuspectedAllocation {
                widget: widget.clone(),
                render_time_us: *render_time_us,
                cells: *cells,
            },
            WasteCategory::Hog { widget, fraction_percent } => WasteCategory::Hog {
                widget: widget.clone(),
                fraction_percent: *fraction_percent,
            },
        }
    }
}

impl Clone for WasteFinding {
    fn clone(&self) -> (r: Self)
        ensures
            r == *self,
    {
        WasteFinding { frame: self.frame, category: self.category.clone(), severity: self.severity }
    }
}

/// One widget's render in a frame: its name, its render time and the cells
/// it wrote.
pub type WidgetSample = (String, Duration, usize);

/// The sequence holding the finding, if there is one.
pub open spec fn opt_seq(f: Option<WasteFinding>) -> Seq<WasteFinding> {
    match f {
        Some(x) => seq![x],
        None => Seq::empty(),
    }
}

/// Whether the widget took more than the hog fraction of a frame that is
/// longer than a microsecond.
pub open spec fn is_hog(time: Duration, frame_time: Duration, cfg: DetectionConfig) -> bool {
    frame_time@ > 1000 && time@ * PPM > cfg.hog_fraction * frame_time@
}

/// The whole percentage of the frame that the widget took, capped at
/// `u64::MAX`.
pub open spec fn percent_of_frame(time: Duration, frame_time: Duration) -> u64 {
    let q = time@ * 100 / frame_time@;
    if q > u64::MAX {
        u64::MAX
    } else {
        q as u64
    }
}

/// The hog finding for a widget.
pub open spec fn hog_finding(
    frame: u64,
    frame_time: Duration,
    w: WidgetSample,
    cfg: DetectionConfig,
) -> Option<WasteFinding> {
    if is_hog(w.1, frame_time, cfg) {
        Some(
            WasteFinding {
                frame,
                category: WasteCategory::Hog {
                    widget: w.0,
                    fraction_percent: percent_of_frame(w.1, frame_time),
                },
                severity: if w.1@ * 100 > 85 * frame_time@ {
                    Severity::Critical
                } else {
                    Severity::Warning
                },
            },
        )
    } else {
        None
    }
}

/// The full-redraw finding for a widget: it has rendered more than three
/// times, its last render changed its cell count by more than half, it is not
/// allowed full redraws, and it wrote more cells than the threshold.
pub open spec fn redraw_finding(
    frame: u64,
    w: WidgetSample,
    stats: Seq<(String, PerWidgetStats)>,
    cfg: DetectionConfig,
) -> Option<WasteFinding> {
    match stats_lookup(stats, w.0@) {
        Some(s) => if !s.full_redraw_allowed && s.render_count > 3 && s.last_was_full_redraw
            && w.2 > cfg.full_redraw_cell_threshold {
            Some(
                WasteFinding {
                    frame,
                    category: WasteCategory::FullRedrawForSmallChange {
                        widget: w.0,
                        cells_written: w.2,
                        estimated_needed: if w.2 / 10 > 2 {
                            (w.2 / 10) as usize
                        } else {
                            2
                        },
                    },
                    severity: if w.2 > 5000 {
                        Severity::Warning
                    } else {
                        Severity::Hint
                    },
                },
            )
        } else {
            None
        },
        None => None,
    }
}

/// The render time in whole microseconds, truncated to 64 bits.
pub open spec fn micros_u64(d: Duration) -> u64 {
    (d@ / 1000) as u64
}

/// The suspected-allocation finding for a widget: more microseconds per cell
/// than the threshold.
pub open spec fn allocation_finding(
    frame: u64,
    w: WidgetSample,
    cfg: DetectionConfig,
) -> Option<WasteFinding> {
    let us = micros_u64(w.1);
    if w.2 > 0 && us > 0 && us / (w.2 as u64) > cfg.allocation_us_per_cell {
        Some(
            WasteFinding {
                frame,
                category: WasteCategory::SuspectedAllocation {
                    widget: w.0,
                    render_time_us: us,
                    cells: w.2,
                },
                severity: if us / (w.2 as u64) > cfg.allocation_us_per_cell * 4 {
                    Severity::Warning
                } else {
                    Severity::Hint
                },
            },
        )
    } else {
        None
    }
}

/// The findings for one widget, in the order hog, full redraw, allocation.
pub open spec fn widget_findings(
    frame: u64,
    frame_time: Duration,
    w: WidgetSample,
    stats: Seq<(String, PerWidgetStats)>,
    cfg: DetectionConfig,
) -> Seq<WasteFinding> {
    opt_seq(hog_finding(frame, frame_time, w, cfg)) + opt_seq(redraw_finding(frame, w, stats, cfg))
        + opt_seq(allocation_finding(frame, w, cfg))
}

/// The findings for a sequence of widgets, widget by widget.
pub open spec fn widgets_findings(
    frame: u64,
    frame_time: Duration,
    ws: Seq<WidgetSample>,
    stats: Seq<(String, PerWidgetStats)>,
    cfg: DetectionConfig,
) -> Seq<WasteFinding>
    decreases ws.len(),
{
    if ws.len() == 0 {
        Seq::empty()
    } else {
        widgets_findings(frame, frame_time, ws.drop_last(), stats, cfg) + widget_findings(
            frame,
            frame_time,
            ws.last(),
            stats,
            cfg,
        )
    }
}

/// The deep-nesting finding: the deepest nesting of the frame is over the
/// budget's depth limit.
pub open spec fn nesting_finding(frame: u64, budget: FrameBudget, depth: usize) -> Option<
    WasteFinding,
> {
    if depth > budget.max_widget_depth {
        Some(
            WasteFinding {
                frame,
                category: WasteCategory::DeepNesting { depth, limit: budget.max_widget_depth },
                severity: Severity::Hint,
            },
        )
    } else {
        None
    }
}

/// Everything `detect` reports for a frame.
pub open spec fn detect_spec(
    frame: u64,
    frame_time: Duration,
    ws: Seq<WidgetSample>,
    stats: Seq<(String, PerWidgetStats)>,
    budget: FrameBudget,
    depth: usize,
) -> Seq<WasteFinding> {
    widgets_findings(frame, frame_time, ws, stats, budget.detection) + opt_seq(
        nesting_finding(frame, budget, depth),
    )
}

fn check_hog(frame: u64, frame_time: Duration, name: &String, time: Duration, cfg: &DetectionConfig) -> (r:
    Option<WasteFinding>)
    ensures
        r == hog_finding(frame, frame_time, (*name, time, 0usize), *cfg),
{
    proof {
        use_type_invariant(&time);
        use_type_invariant(&frame_time);
        time.lemma_within_range();
        frame_time.lemma_within_range();
    }
    let ft = frame_time.as_nanos();
    let t = time.as_nanos();
    if ft <= 1000 {
        return None;
    }
    let lhs = t * 1_000_000;
    let over = match (cfg.hog_fraction as u128).checked_mul(ft) {
        Some(rhs) => lhs > rhs,
        None => false,
    };
    if !over {
        return None;
    }
    let q = t * 100 / ft;
    let percent: u64 = if q > u64::MAX as u128 {
        u64::MAX
    } else {
        q as u64
    };
    let severity = if t * 100 > 85 * ft {
        Severity::Critical
    } else {
        Severity::Warning
    };
    Some(
        WasteFinding {
            frame,
            category: WasteCategory::Hog { widget: name.clone(), fraction_percent: percent },
            severity,
        },
    )
}

fn check_redraw(
    frame: u64,
    name: &String,
    cells: usize,
    all_stats: &WidgetStatsMap,
    cfg: &DetectionConfig,
) -> (r: Option<WasteFinding>)
    ensures
        forall|t: Duration| r == redraw_finding(frame, (*name, t, cells), all_stats@, *cfg),
{
    match all_stats.get(name.as_str()) {
        Some(stats) => {
            if !stats.full_redraw_allowed && stats.render_count > 3 && stats.last_was_full_redraw
                && cells > cfg.full_redraw_cell_threshold {
                let estimated = if cells / 10 > 2 {
                    cells / 10
                } else {
                    2
                };
                Some(
                    WasteFinding {
                        frame,
                        category: WasteCategory::FullRedrawForSmallChange {
                            widget: name.clone(),
                            cells_written: cells,
                            estimated_needed: estimated,
                        },
                        severity: if cells > 5000 {
                            Severity::Warning
                        } else {
                            Severity::Hint
                        },
                    },
                )
            } else {
                None
            }
        },
        None => None,
    }
}

fn check_allocation(
    frame: u64,
    name: &String,
    time: Duration,
    cells: usize,
    cfg: &DetectionConfig,
) -> (r: Option<WasteFinding>)
    ensures
        r == allocation_finding(frame, (*name, time, cells), *cfg),
{
    let us: u64 = #[verifier::truncate] (time.as_micros() as u64);
    if cells > 0 && us > 0 {
        let per_cell = us / (cells as u64);
        if per_cell > cfg.allocation_us_per_cell {
            let severity = if (per_cell as u128) > (cfg.allocation_us_per_cell as u128) * 4 {
                Severity::Warning
            } else {
                Severity::Hint
            };
            return Some(
                WasteFinding {
                    frame,
                    category: WasteCategory::SuspectedAllocation {
                        widget: name.clone(),
                        render_time_us: us,
                        cells,
                    },
                    severity,
                },
            );
        }
    }
    None
}

fn push_opt(findings: &mut Vec<WasteFinding>, f: Option<WasteFinding>)
    ensures
        final(findings)@ == old(findings)@ + opt_seq(f),
{
    match f {
        Some(x) => {
            findings.push(x);
        },
        None => {},
    }
    assert(final(findings)@ =~= old(findings)@ + opt_seq(f));
}

impl Severity {
    /// The name of the severity.
    pub open spec fn text(self) -> Seq<char> {
        match self {
            Severity::Hint => "hint"@,
            Severity::Warning => "warning"@,
            Severity::Critical => "CRITICAL"@,
        }
    }

    /// Appends the name of the severity.
    pub fn write_to(&self, out: &mut String)
        ensures
            final(out)@ == old(out)@ + self.text(),
    {
        match self {
            Severity::Hint => push_str(out, "hint"),
            Severity::Warning => push_str(out, "warning"),
            Severity::Critical => push_str(out, "CRITICAL"),
        }
    }

    /// The name of the severity.
    pub fn to_string(&self) -> (s: String)
        ensures
            s@ == self.text(),
    {
        let mut s = String::new();
        self.write_to(&mut s);
        assert(s@ =~= self.text());
        s
    }
}

impl WasteCategory {
    /// The message that describes the waste.
    pub open spec fn text(self) -> Seq<char> {
        match self {
            WasteCategory::FullRedrawForSmallChange { widget, cells_written, estimated_needed } =>
                widget@ + " wrote "@ + decimal(cells_written as nat)
                + " cells but likely only needed ~"@ + decimal(estimated_needed as nat)
                + ". It redraws the full area on every frame."@,
            WasteCategory::DeepNesting { depth, limit } => "layout nested "@ + decimal(
                depth as nat,
            ) + " levels deep (limit: "@ + decimal(limit as nat) + ")"@,
            WasteCategory::SuspectedAllocation { widget, render_time_us, cells } => widget@
                + " took "@ + decimal(render_time_us as nat) + "\u{b5}s for only "@ + decimal(
                cells as nat,
            ) + " cells \u{2014} likely allocating Strings or Vecs every frame"@,
            WasteCategory::Hog { widget, fraction_percent } => widget@ + " consumed "@ + decimal(
                fraction_percent as nat,
            ) + "% of frame time"@,
        }
    }

    /// Appends the message that describes the waste.
    pub fn write_to(&self, out: &mut String)
        ensures
            final(out)@ == old(out)@ + self.text(),
    {
        match self {
            WasteCategory::FullRedrawForSmallChange { widget, cells_written, estimated_needed } => {
                push_str(out, widget.as_str());
                push_str(out, " wrote ");
                push_decimal(out, *cells_written as u128);
                push_str(out, " cells but likely only needed ~");
                push_decimal(out, *estimated_needed as u128);
                push_str(out, ". It redraws the full area on every frame.");
            },
            WasteCategory::DeepNesting { depth, limit } => {
                push_str(out, "layout nested ");
                push_decimal(out, *depth as u128);
                push_str(out, " levels deep (limit: ");
                push_decimal(out, *limit as u128);
                push_str(out, ")");
            },
            WasteCategory::SuspectedAllocation { widget, render_time_us, cells } => {
                push_str(out, widget.as_str());
                push_str(out, " took ");
                push_decimal(out, *render_time_us as u128);
                push_str(out, "\u{b5}s for only ");
                push_decimal(out, *cells as u128);
                push_str(out, " cells \u{2014} likely allocating Strings or Vecs every frame");
            },
            WasteCategory::Hog { widget, fraction_percent } => {
                push_str(out, widget.as_str());
                push_str(out, " consumed ");
                push_decimal(out, *fraction_percent as u128);
                push_str(out, "% of frame time");
            },
        }
        assert(final(out)@ =~= old(out)@ + self.text());
    }

    /// The message that describes the waste.
    pub fn to_string(&self) -> (s: String)
        ensures
            s@ == self.text(),
    {
        let mut s = String::new();
        self.write_to(&mut s);
        assert(s@ =~= self.text());
        s
    }
}

/// The waste detector. It keeps only the findings of the last frame; all
/// other context comes from the profiler's data.
pub struct WasteDetector {
    last_findings: Vec<WasteFinding>,
}

impl View for WasteDetector {
    type V = Seq<WasteFinding>;

    /// The findings that were stashed last.
    closed spec fn view(&self) -> Seq<WasteFinding> {
        self.last_findings@
    }
}

impl WasteDetector {
    /// A detector with no findings.
    pub fn new() -> (d: Self)
        ensures
            d@ == Seq::<WasteFinding>::empty(),
    {
        WasteDetector { last_findings: Vec::new() }
    }

    /// Analyze a frame's data and return the findings: for each widget in
    /// order its hog, full-redraw and allocation findings, then the
    /// deep-nesting finding.
    pub fn detect(
        &self,
        frame: u64,
        frame_time: Duration,
        widgets: &[WidgetSample],
        all_stats: &WidgetStatsMap,
        budget: &FrameBudget,
        actual_max_depth: usize,
    ) -> (findings: Vec<WasteFinding>)
        ensures
            findings@ == detect_spec(
                frame,
                frame_time,
                widgets@,
                all_stats@,
                *budget,
                actual_max_depth,
            ),
    {
        let mut findings: Vec<WasteFinding> = Vec::new();
        let cfg = &budget.detection;
        let mut i: usize = 0;
        while i < widgets.len()
            invariant
                i <= widgets@.len(),
                cfg == &budget.detection,
                findings@ == widgets_findings(
                    frame,
                    frame_time,
                    widgets@.take(i as int),
                    all_stats@,
                    *cfg,
                ),
            decreases widgets.len() - i,
        {
            let name = &widgets[i].0;
            let time = widgets[i].1;
            let cells = widgets[i].2;
            let ghost w = widgets@[i as int];
            let ghost before = findings@;
            push_opt(&mut findings, check_hog(frame, frame_time, name, time, cfg));
            push_opt(&mut findings, check_redraw(frame, name, cells, all_stats, cfg));
            push_opt(&mut findings, check_allocation(frame, name, time, cells, cfg));
            proof {
                assert(hog_finding(frame, frame_time, (*name, time, 0usize), *cfg) == hog_finding(
                    frame,
                    frame_time,
                    w,
                    *cfg,
                ));
                assert(widgets@.take(i + 1).drop_last() =~= widgets@.take(i as int));
                assert(findings@ =~= before + widget_findings(
                    frame,
                    frame_time,
                    w,
                    all_stats@,
                    *cfg,
                ));
            }
            i = i + 1;
        }
        proof {
            assert(widgets@.take(widgets@.len() as int) =~= widgets@);
        }
        if actual_max_depth > budget.max_widget_depth {
            findings.push(
                WasteFinding {
                    frame,
                    category: WasteCategory::DeepNesting {
                        depth: actual_max_depth,
                        limit: budget.max_widget_depth,
                    },
                    severity: Severity::Hint,
                },
            );
        }
        findings
    }

    /// Stash findings for later retrieval (called by the profiler at the end
    /// of a frame).
    pub fn stash_findings(&mut self, _frame: u64, findings: Vec<WasteFinding>)
        ensures
            final(self)@ == findings@,
    {
        self.last_findings = findings;
    }

    /// The findings from the last frame.
    pub fn last_findings(&self) -> (f: &[WasteFinding])
        ensures
            f@ == self@,
    {
        self.last_findings.as_slice()
    }
}

impl Default for WasteDetector {
    fn default() -> (d: Self)
        ensures
            d@ == Seq::<WasteFinding>::empty(),
    {
        Self::new()
    }
}

} // verus!
