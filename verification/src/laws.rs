//! Properties that hold across the library's operations.
use vstd::prelude::*;

use crate::budget::{BudgetViolation, DetectionConfig, FrameBudget, PPM};
use crate::escape::{csv_field, json_string};
use crate::ratatui_adapter::{reported_cells, WidgetRenderReport};
use crate::detector::{
    Severity, allocation_finding, detect_spec, hog_finding, nesting_finding, opt_seq, redraw_finding, micros_u64, widget_findings, widgets_findings, WasteCategory, WasteFinding, WidgetSample,
};
use crate::profiler::{cells_sum, opt_violation, record_render, saturating_sum, stats_from_list, ProfilerModel, RenderProfiler};
use crate::report::{
    header_line, is_report, last_total, last_violations, last_widgets, ordered_by_time, report_text,
    tenths_of_ms, time_before,
};
use crate::reporter::{by_name, csv_row, widget_json, name_before, ordered_by_name, stats_values};
use crate::sort::{
    arranged, is_arrangement, lists, lemma_unique_arrangement, lists_in_order, strict_total_on,
};
use crate::stats::{
    distinct_keys, stats_index, WidgetStatsMap, lemma_lookup_at, lemma_lookup_inserted, stats_lookup, PerWidgetStats,
};
use crate::text::{
    bool_text, decimal, digit_char, fixed_one, lemma_lex_irreflexive, lemma_lex_total, lemma_lex_transitive,
    lex_lt,
};
use crate::time::Duration;
use crate::trend::{
    change_before, is_significant, is_trend_report, lemma_ratio_order, names_missing, ordered_by_change,
    sorted_by_change, trend_for, trends_moving, TrendView, WidgetTrend,
};

verus! {

/// What each kind of finding needs: a hog needs a frame longer than a
/// microsecond; a full redraw needs statistics for the widget that do not
/// allow full redraws, that count more than three renders and whose last
/// render was a full redraw; deep nesting never comes from a widget.
pub open spec fn justified(f: WasteFinding, frame_time: Duration, stats: Seq<(String, PerWidgetStats)>) -> bool {
    match f.category {
        WasteCategory::Hog { .. } => frame_time@ > 1000,
        WasteCategory::FullRedrawForSmallChange { widget, .. } => stats_lookup(stats, widget@) matches Some(s)
            && !s.full_redraw_allowed && s.render_count > 3 && s.last_was_full_redraw,
        WasteCategory::SuspectedAllocation { .. } => true,
        WasteCategory::DeepNesting { .. } => false,
    }
}

proof fn lemma_widget_findings_justified(
    frame: u64,
    frame_time: Duration,
    ws: Seq<WidgetSample>,
    stats: Seq<(String, PerWidgetStats)>,
    cfg: DetectionConfig,
)
    ensures
        forall|i: int|
            0 <= i < widgets_findings(frame, frame_time, ws, stats, cfg).len() ==> justified(
                #[trigger] widgets_findings(frame, frame_time, ws, stats, cfg)[i],
                frame_time,
                stats,
            ),
    decreases ws.len(),
{
    if ws.len() > 0 {
        lemma_widget_findings_justified(frame, frame_time, ws.drop_last(), stats, cfg);
        let rest = widgets_findings(frame, frame_time, ws.drop_last(), stats, cfg);
        let last = widget_findings(frame, frame_time, ws.last(), stats, cfg);
        let all = widgets_findings(frame, frame_time, ws, stats, cfg);
        assert(all == rest + last);
        assert forall|i: int| 0 <= i < all.len() implies justified(#[trigger] all[i], frame_time, stats) by {
            if i < rest.len() {
                assert(all[i] == rest[i]);
            } else {
                assert(all[i] == last[i - rest.len()]);
            }
        }
    }
}

/// A frame no longer than a microsecond never reports a hog, whatever its
/// widgets: the hog ratio is only taken over longer frames.
pub proof fn law_tiny_frame_has_no_hog(
    frame: u64,
    frame_time: Duration,
    ws: Seq<WidgetSample>,
    stats: Seq<(String, PerWidgetStats)>,
    budget: FrameBudget,
    depth: usize,
)
    requires
        frame_time@ <= 1000,
    ensures
        forall|i: int|
            0 <= i < detect_spec(frame, frame_time, ws, stats, budget, depth).len() ==> !(
            #[trigger] detect_spec(frame, frame_time, ws, stats, budget, depth)[i].category is Hog),
{
    lemma_widget_findings_justified(frame, frame_time, ws, stats, budget.detection);
    let w = widgets_findings(frame, frame_time, ws, stats, budget.detection);
    let all = detect_spec(frame, frame_time, ws, stats, budget, depth);
    assert forall|i: int| 0 <= i < all.len() implies !(#[trigger] all[i].category is Hog) by {
        if i < w.len() {
            assert(all[i] == w[i]);
            assert(justified(w[i], frame_time, stats));
        }
    }
}

/// A widget whose statistics allow full redraws is never flagged for a full
/// redraw.
pub proof fn law_allowed_widget_is_not_flagged_for_redraw(
    frame: u64,
    frame_time: Duration,
    ws: Seq<WidgetSample>,
    stats: Seq<(String, PerWidgetStats)>,
    budget: FrameBudget,
    depth: usize,
    name: Seq<char>,
)
    requires
        stats_lookup(stats, name) matches Some(s) && s.full_redraw_allowed,
    ensures
        forall|i: int|
            0 <= i < detect_spec(frame, frame_time, ws, stats, budget, depth).len() ==> !(
            #[trigger] detect_spec(frame, frame_time, ws, stats, budget, depth)[i].category matches WasteCategory::FullRedrawForSmallChange { widget, .. } && widget@ == name),
{
    lemma_widget_findings_justified(frame, frame_time, ws, stats, budget.detection);
    let w = widgets_findings(frame, frame_time, ws, stats, budget.detection);
    let all = detect_spec(frame, frame_time, ws, stats, budget, depth);
    assert forall|i: int| 0 <= i < all.len() implies !(#[trigger] all[i].category matches WasteCategory::FullRedrawForSmallChange { widget, .. } && widget@ == name) by {
        if i < w.len() {
            assert(all[i] == w[i]);
            assert(justified(w[i], frame_time, stats));
        }
    }
}

/// Whether the finding `f` of frame `frame` is accounted for by the widget
/// sample `w`: it names that widget, what it reports is read from the
/// sample, the sample crosses the finding's threshold, and the severity
/// follows the sample.
pub open spec fn explained_by(
    f: WasteFinding,
    w: WidgetSample,
    frame: u64,
    frame_time: Duration,
    stats: Seq<(String, PerWidgetStats)>,
    cfg: DetectionConfig,
) -> bool {
    &&& f.frame == frame
    &&& match f.category {
        WasteCategory::Hog { widget, fraction_percent } => {
            &&& widget == w.0
            &&& frame_time@ > 1000
            &&& w.1@ * PPM > cfg.hog_fraction * frame_time@
            &&& fraction_percent == (if w.1@ * 100 / frame_time@ > u64::MAX {
                u64::MAX as int
            } else {
                (w.1@ * 100 / frame_time@) as int
            })
            &&& f.severity == (if w.1@ * 100 > 85 * frame_time@ {
                Severity::Critical
            } else {
                Severity::Warning
            })
        },
        WasteCategory::FullRedrawForSmallChange { widget, cells_written, estimated_needed } => {
            &&& widget == w.0
            &&& cells_written == w.2
            &&& w.2 > cfg.full_redraw_cell_threshold
            &&& stats_lookup(stats, w.0@) matches Some(s) && !s.full_redraw_allowed
                && s.render_count > 3 && s.last_was_full_redraw
            &&& estimated_needed == (if w.2 / 10 > 2 {
                w.2 / 10
            } else {
                2
            })
            &&& f.severity == (if w.2 > 5000 {
                Severity::Warning
            } else {
                Severity::Hint
            })
        },
        WasteCategory::SuspectedAllocation { widget, render_time_us, cells } => {
            &&& widget == w.0
            &&& cells == w.2
            &&& cells > 0
            &&& render_time_us == (w.1@ / 1000) as u64
            &&& render_time_us > 0
            &&& render_time_us / (cells as u64) > cfg.allocation_us_per_cell
            &&& f.severity == (if render_time_us / (cells as u64) > cfg.allocation_us_per_cell * 4 {
                Severity::Warning
            } else {
                Severity::Hint
            })
        },
        WasteCategory::DeepNesting { .. } => false,
    }
}

/// The position of the widget whose findings hold the `i`-th finding.
pub open spec fn finding_source(
    frame: u64,
    frame_time: Duration,
    ws: Seq<WidgetSample>,
    stats: Seq<(String, PerWidgetStats)>,
    cfg: DetectionConfig,
    i: int,
) -> int
    decreases ws.len(),
{
    if ws.len() == 0 {
        0
    } else if i < widgets_findings(frame, frame_time, ws.drop_last(), stats, cfg).len() {
        finding_source(frame, frame_time, ws.drop_last(), stats, cfg, i)
    } else {
        ws.len() - 1
    }
}

proof fn lemma_widgets_findings_explained(
    frame: u64,
    frame_time: Duration,
    ws: Seq<WidgetSample>,
    stats: Seq<(String, PerWidgetStats)>,
    cfg: DetectionConfig,
    i: int,
)
    requires
        0 <= i < widgets_findings(frame, frame_time, ws, stats, cfg).len(),
    ensures
        0 <= finding_source(frame, frame_time, ws, stats, cfg, i) < ws.len(),
        explained_by(
            widgets_findings(frame, frame_time, ws, stats, cfg)[i],
            ws[finding_source(frame, frame_time, ws, stats, cfg, i)],
            frame,
            frame_time,
            stats,
            cfg,
        ),
    decreases ws.len(),
{
    if ws.len() > 0 {
        let d = ws.drop_last();
        let rest = widgets_findings(frame, frame_time, d, stats, cfg);
        let last = widget_findings(frame, frame_time, ws.last(), stats, cfg);
        let all = widgets_findings(frame, frame_time, ws, stats, cfg);
        assert(all == rest + last);
        if i < rest.len() {
            lemma_widgets_findings_explained(frame, frame_time, d, stats, cfg, i);
            assert(all[i] == rest[i]);
            let j = finding_source(frame, frame_time, d, stats, cfg, i);
            assert(d[j] == ws[j]);
        } else {
            assert(all[i] == last[i - rest.len()]);
        }
    }
}

/// Every finding of a frame but the deep-nesting one is accounted for by a
/// widget that rendered in the frame: a hog took more than the hog fraction
/// of a frame longer than a microsecond, a full redraw wrote more cells than
/// the threshold after a full redraw of a widget that is not allowed them
/// and has rendered more than three times, a suspected allocation took more
/// whole microseconds per cell than the threshold; what each reports, and
/// its severity, is read from that widget's sample.
pub proof fn law_findings_are_explained_by_samples(
    frame: u64,
    frame_time: Duration,
    ws: Seq<WidgetSample>,
    stats: Seq<(String, PerWidgetStats)>,
    budget: FrameBudget,
    depth: usize,
)
    ensures
        forall|i: int|
            #![trigger detect_spec(frame, frame_time, ws, stats, budget, depth)[i]]
            0 <= i < detect_spec(frame, frame_time, ws, stats, budget, depth).len() && !(
            detect_spec(frame, frame_time, ws, stats, budget, depth)[i].category is DeepNesting) ==> exists|j: int|
                0 <= j < ws.len() && #[trigger] explained_by(
                    detect_spec(frame, frame_time, ws, stats, budget, depth)[i],
                    ws[j],
                    frame,
                    frame_time,
                    stats,
                    budget.detection,
                ),
{
    let cfg = budget.detection;
    let w = widgets_findings(frame, frame_time, ws, stats, cfg);
    let all = detect_spec(frame, frame_time, ws, stats, budget, depth);
    assert forall|i: int|
        #![trigger all[i]]
        0 <= i < all.len() && !(all[i].category is DeepNesting) implies exists|j: int|
            0 <= j < ws.len() && #[trigger] explained_by(all[i], ws[j], frame, frame_time, stats, cfg) by {
        if i < w.len() {
            assert(all[i] == w[i]);
            lemma_widgets_findings_explained(frame, frame_time, ws, stats, cfg, i);
            let j = finding_source(frame, frame_time, ws, stats, cfg, i);
            assert(explained_by(all[i], ws[j], frame, frame_time, stats, cfg));
        } else {
            assert(all[i] == opt_seq(nesting_finding(frame, budget, depth))[i - w.len()]);
        }
    }
}

proof fn lemma_widgets_findings_append(
    frame: u64,
    frame_time: Duration,
    a: Seq<WidgetSample>,
    b: Seq<WidgetSample>,
    stats: Seq<(String, PerWidgetStats)>,
    cfg: DetectionConfig,
)
    ensures
        widgets_findings(frame, frame_time, a + b, stats, cfg) == widgets_findings(
            frame,
            frame_time,
            a,
            stats,
            cfg,
        ) + widgets_findings(frame, frame_time, b, stats, cfg),
    decreases b.len(),
{
    if b.len() == 0 {
        assert(a + b =~= a);
        assert(widgets_findings(frame, frame_time, a, stats, cfg) + widgets_findings(frame, frame_time, b, stats, cfg)
            =~= widgets_findings(frame, frame_time, a, stats, cfg));
    } else {
        lemma_widgets_findings_append(frame, frame_time, a, b.drop_last(), stats, cfg);
        assert((a + b).drop_last() =~= a + b.drop_last());
        assert((a + b).last() == b.last());
        assert(widgets_findings(frame, frame_time, a + b, stats, cfg) =~= widgets_findings(
            frame,
            frame_time,
            a,
            stats,
            cfg,
        ) + widgets_findings(frame, frame_time, b, stats, cfg));
    }
}

/// The findings of the widget at `j` stand, in order, inside the findings of
/// the frame.
proof fn lemma_widget_findings_inside(
    frame: u64,
    frame_time: Duration,
    ws: Seq<WidgetSample>,
    stats: Seq<(String, PerWidgetStats)>,
    budget: FrameBudget,
    depth: usize,
    j: int,
    k: int,
)
    requires
        0 <= j < ws.len(),
        0 <= k < widget_findings(frame, frame_time, ws[j], stats, budget.detection).len(),
    ensures
        ({
            let o = widgets_findings(frame, frame_time, ws.take(j), stats, budget.detection).len() + k;
            &&& 0 <= o < detect_spec(frame, frame_time, ws, stats, budget, depth).len()
            &&& detect_spec(frame, frame_time, ws, stats, budget, depth)[o] == widget_findings(
                frame,
                frame_time,
                ws[j],
                stats,
                budget.detection,
            )[k]
        }),
{
    let cfg = budget.detection;
    let pre = ws.take(j);
    let one = ws.take(j + 1);
    let post = ws.skip(j + 1);
    assert(ws =~= one + post);
    lemma_widgets_findings_append(frame, frame_time, one, post, stats, cfg);
    assert(one.drop_last() =~= pre);
    assert(one.last() == ws[j]);
    let all = detect_spec(frame, frame_time, ws, stats, budget, depth);
    let o = widgets_findings(frame, frame_time, pre, stats, cfg).len() + k;
    assert(all[o] == widgets_findings(frame, frame_time, one, stats, cfg)[o]);
}

/// Every widget of the frame that crosses a heuristic's threshold is
/// reported: a widget that took more than the hog fraction of a frame longer
/// than a microsecond gets a hog finding; a widget that wrote more cells than
/// the full-redraw threshold right after a full redraw, with more than three
/// renders and full redraws not allowed, gets a full-redraw finding; a widget
/// that took more whole microseconds per cell than the allocation threshold
/// gets a suspected-allocation finding. Each such finding is explained by the
/// widget's sample.
pub proof fn law_frame_reports_every_crossing(
    frame: u64,
    frame_time: Duration,
    ws: Seq<WidgetSample>,
    stats: Seq<(String, PerWidgetStats)>,
    budget: FrameBudget,
    depth: usize,
    j: int,
)
    requires
        0 <= j < ws.len(),
    ensures
        ({
            let all = detect_spec(frame, frame_time, ws, stats, budget, depth);
            let w = ws[j];
            let cfg = budget.detection;
            let us = (w.1@ / 1000) as u64;
            &&& frame_time@ > 1000 && w.1@ * PPM > cfg.hog_fraction * frame_time@ ==> exists|i: int|
                0 <= i < all.len() && (#[trigger] all[i]).category is Hog && explained_by(
                    all[i],
                    w,
                    frame,
                    frame_time,
                    stats,
                    cfg,
                )
            &&& (stats_lookup(stats, w.0@) matches Some(s) && !s.full_redraw_allowed && s.render_count
                > 3 && s.last_was_full_redraw && w.2 > cfg.full_redraw_cell_threshold) ==> exists|i: int|
                0 <= i < all.len() && (#[trigger] all[i]).category is FullRedrawForSmallChange
                    && explained_by(all[i], w, frame, frame_time, stats, cfg)
            &&& (w.2 > 0 && us > 0 && us / (w.2 as u64) > cfg.allocation_us_per_cell) ==> exists|i: int|
                0 <= i < all.len() && (#[trigger] all[i]).category is SuspectedAllocation
                    && explained_by(all[i], w, frame, frame_time, stats, cfg)
        }),
{
    let cfg = budget.detection;
    let all = detect_spec(frame, frame_time, ws, stats, budget, depth);
    let w = ws[j];
    let own = widget_findings(frame, frame_time, w, stats, cfg);
    let base = widgets_findings(frame, frame_time, ws.take(j), stats, cfg).len() as int;
    let h = opt_seq(hog_finding(frame, frame_time, w, cfg));
    let r = opt_seq(redraw_finding(frame, w, stats, cfg));
    let a = opt_seq(allocation_finding(frame, w, cfg));
    assert(own == h + r + a);
    if hog_finding(frame, frame_time, w, cfg) is Some {
        lemma_widget_findings_inside(frame, frame_time, ws, stats, budget, depth, j, 0);
        assert(all[base] == own[0]);
        assert(explained_by(all[base], w, frame, frame_time, stats, cfg));
    }
    if redraw_finding(frame, w, stats, cfg) is Some {
        let k = h.len() as int;
        lemma_widget_findings_inside(frame, frame_time, ws, stats, budget, depth, j, k);
        assert(own[k] == r[0]);
        assert(explained_by(all[base + k], w, frame, frame_time, stats, cfg));
    }
    if allocation_finding(frame, w, cfg) is Some {
        let k = (h.len() + r.len()) as int;
        lemma_widget_findings_inside(frame, frame_time, ws, stats, budget, depth, j, k);
        assert(own[k] == a[0]);
        assert(explained_by(all[base + k], w, frame, frame_time, stats, cfg));
    }
}

/// Only a real full redraw is flagged: every full-redraw finding names a
/// widget whose statistics record that its last render was a full redraw,
/// that has rendered more than three times and that is not allowed full
/// redraws. A widget whose cell count held steady is never flagged.
pub proof fn law_redraw_finding_needs_full_redraw(
    frame: u64,
    frame_time: Duration,
    ws: Seq<WidgetSample>,
    stats: Seq<(String, PerWidgetStats)>,
    budget: FrameBudget,
    depth: usize,
)
    ensures
        forall|i: int|
            0 <= i < detect_spec(frame, frame_time, ws, stats, budget, depth).len() && (
            #[trigger] detect_spec(frame, frame_time, ws, stats, budget, depth)[i].category is FullRedrawForSmallChange) ==> {
                let f = detect_spec(frame, frame_time, ws, stats, budget, depth)[i];
                stats_lookup(stats, f.category->FullRedrawForSmallChange_widget@) matches Some(s)
                    && s.last_was_full_redraw && s.render_count > 3 && !s.full_redraw_allowed
            },
{
    lemma_widget_findings_justified(frame, frame_time, ws, stats, budget.detection);
    let w = widgets_findings(frame, frame_time, ws, stats, budget.detection);
    let all = detect_spec(frame, frame_time, ws, stats, budget, depth);
    assert forall|i: int| 0 <= i < all.len() && (#[trigger] all[i].category is FullRedrawForSmallChange) implies (
    stats_lookup(stats, all[i].category->FullRedrawForSmallChange_widget@) matches Some(s)
        && s.last_was_full_redraw && s.render_count > 3 && !s.full_redraw_allowed) by {
        if i < w.len() {
            assert(all[i] == w[i]);
            assert(justified(w[i], frame_time, stats));
        }
    }
}

/// Deep nesting is judged by the deepest nesting alone, not by how many
/// widgets rendered: it is reported exactly when that depth is over the
/// limit, once, as the last finding.
pub proof fn law_nesting_depends_on_depth_only(
    frame: u64,
    frame_time: Duration,
    ws: Seq<WidgetSample>,
    stats: Seq<(String, PerWidgetStats)>,
    budget: FrameBudget,
    depth: usize,
)
    ensures
        ({
            let all = detect_spec(frame, frame_time, ws, stats, budget, depth);
            &&& forall|i: int|
                0 <= i < all.len() && (#[trigger] all[i].category is DeepNesting) ==> i == all.len()
                    - 1
            &&& (depth > budget.max_widget_depth) <==> (all.len() > 0 && all.last().category
                == WasteCategory::DeepNesting { depth, limit: budget.max_widget_depth })
            &&& depth > budget.max_widget_depth ==> all.last().severity == Severity::Hint
                && all.last().frame == frame
        }),
{
    lemma_widget_findings_justified(frame, frame_time, ws, stats, budget.detection);
    let w = widgets_findings(frame, frame_time, ws, stats, budget.detection);
    let all = detect_spec(frame, frame_time, ws, stats, budget, depth);
    assert forall|i: int| 0 <= i < all.len() && (#[trigger] all[i].category is DeepNesting) implies i == all.len() - 1 by {
        if i < w.len() {
            assert(all[i] == w[i]);
            assert(justified(w[i], frame_time, stats));
        }
    }
    if depth <= budget.max_widget_depth && all.len() > 0 {
        assert(all == w);
        assert(justified(w[w.len() - 1], frame_time, stats));
    }
}

/// Ending a widget records its render under its name (one more render, the
/// new cell count, the time added) and leaves every other widget's
/// statistics as they were.
pub proof fn law_end_widget_records_render(m: ProfilerModel, cells: usize, elapsed: Duration, other: Seq<char>)
    requires
        RenderProfiler::model_wf(m),
        m.stack.len() > 0,
    ensures
        ({
            let name = m.stack.last();
            let before = match stats_lookup(m.stats, name@) {
                Some(s) => s,
                None => PerWidgetStats::fresh(name),
            };
            let after = m.after_end_widget(cells, elapsed);
            &&& stats_lookup(after.stats, name@) == Some(
                PerWidgetStats { name, ..record_render(before, cells, elapsed) },
            )
            &&& other != name@ ==> stats_lookup(after.stats, other) == stats_lookup(m.stats, other)
            &&& after.current == m.current.push((name, elapsed, cells))
        }),
{
    let name = m.stack.last();
    let before = match stats_lookup(m.stats, name@) {
        Some(s) => s,
        None => PerWidgetStats::fresh(name),
    };
    lemma_lookup_inserted(m.stats, name, PerWidgetStats { name, ..record_render(before, cells, elapsed) }, other);
}

/// A widget's statistics are consistent when its peak render time is at most
/// its total render time, and its total at most its render count times its
/// peak.
pub open spec fn stats_consistent(s: PerWidgetStats) -> bool {
    s.peak_time_us <= s.total_time_us && s.total_time_us <= s.render_count * s.peak_time_us
}

/// Whether every widget's statistics in `m` are consistent.
pub open spec fn all_stats_consistent(m: ProfilerModel) -> bool {
    forall|i: int| 0 <= i < m.stats.len() ==> stats_consistent(#[trigger] m.stats[i].1)
}

/// Recording a render keeps a widget's statistics consistent, and the
/// average render time of consistent statistics never exceeds the peak.
pub proof fn law_render_keeps_stats_consistent(s: PerWidgetStats, cells: usize, elapsed: Duration)
    requires
        stats_consistent(s),
        s.render_count < u64::MAX,
    ensures
        stats_consistent(record_render(s, cells, elapsed)),
        record_render(s, cells, elapsed).avg_time_us() <= record_render(s, cells, elapsed).peak_time_us,
{
    let us = micros_u64(elapsed);
    let r = record_render(s, cells, elapsed);
    let c = s.render_count as int;
    let p = s.peak_time_us as int;
    let p2 = r.peak_time_us as int;
    assert(c * p <= c * p2) by (nonlinear_arith)
        requires
            0 <= c,
            p <= p2,
    ;
    assert(r.total_time_us <= s.total_time_us + us);
    assert(r.render_count * r.peak_time_us == c * p2 + p2) by (nonlinear_arith)
        requires
            r.render_count == c + 1,
            r.peak_time_us == p2,
    ;
    assert(r.peak_time_us <= r.total_time_us) by {
        if us > s.peak_time_us {
            assert(r.total_time_us == saturating_sum(s.total_time_us, us));
        }
    }
    lemma_avg_at_most_peak(r);
}

/// The average render time of consistent statistics never exceeds the peak.
pub proof fn lemma_avg_at_most_peak(s: PerWidgetStats)
    requires
        stats_consistent(s),
    ensures
        s.avg_time_us() <= s.peak_time_us,
{
    if s.render_count > 0 {
        let t = s.total_time_us as int;
        let c = s.render_count as int;
        let p = s.peak_time_us as int;
        assert(t / c <= p) by (nonlinear_arith)
            requires
                0 <= t <= c * p,
                c > 0,
        ;
    }
}

/// Ending a widget keeps every widget's statistics consistent: each peak
/// stays within its total and each total within its render count times its
/// peak, so no average exceeds its peak.
pub proof fn law_end_widget_keeps_stats_consistent(m: ProfilerModel, cells: usize, elapsed: Duration)
    requires
        RenderProfiler::model_wf(m),
        m.can_end_widget(),
        all_stats_consistent(m),
    ensures
        all_stats_consistent(m.after_end_widget(cells, elapsed)),
        forall|i: int|
            0 <= i < m.after_end_widget(cells, elapsed).stats.len() ==> (
            #[trigger] m.after_end_widget(cells, elapsed).stats[i].1).avg_time_us()
                <= m.after_end_widget(cells, elapsed).stats[i].1.peak_time_us,
{
    let after = m.after_end_widget(cells, elapsed);
    if m.stack.len() > 0 {
        let name = m.stack.last();
        let before = match stats_lookup(m.stats, name@) {
            Some(s) => s,
            None => PerWidgetStats::fresh(name),
        };
        if stats_lookup(m.stats, name@) is Some {
            let k = stats_index(m.stats, name@);
            assert(stats_consistent(m.stats[k].1));
        }
        law_render_keeps_stats_consistent(before, cells, elapsed);
        let value = PerWidgetStats { name, ..record_render(before, cells, elapsed) };
        assert(stats_consistent(value));
        assert(after.stats == WidgetStatsMap::inserted(m.stats, name, value));
        assert forall|i: int| 0 <= i < after.stats.len() implies stats_consistent(
            #[trigger] after.stats[i].1,
        ) by {
            if exists|j: int| 0 <= j < m.stats.len() && m.stats[j].0@ == name@ {
                let j = choose|j: int| 0 <= j < m.stats.len() && m.stats[j].0@ == name@;
                if i != j {
                    assert(after.stats[i] == m.stats[i]);
                }
            } else if i < m.stats.len() {
                assert(after.stats[i] == m.stats[i]);
            }
        }
    }
    assert forall|i: int| 0 <= i < after.stats.len() implies (
    #[trigger] after.stats[i].1).avg_time_us() <= after.stats[i].1.peak_time_us by {
        lemma_avg_at_most_peak(after.stats[i].1);
    }
}

proof fn lemma_self_compare_prefix(s: Seq<(String, PerWidgetStats)>, k: int)
    requires
        distinct_keys(s),
        0 <= k <= s.len(),
    ensures
        names_missing(s.take(k), s) == Seq::<String>::empty(),
        trends_moving(s.take(k), s, true) == Seq::<WidgetTrend>::empty(),
        trends_moving(s.take(k), s, false) == Seq::<WidgetTrend>::empty(),
    decreases k,
{
    if k > 0 {
        lemma_self_compare_prefix(s, k - 1);
        assert(s.take(k).drop_last() =~= s.take(k - 1));
        assert(s.take(k).last() == s[k - 1]);
        lemma_lookup_at(s, k - 1);
        match trend_for(s[k - 1], s) {
            Some(t) => {
                assert(t.current_avg_us == t.previous_avg_us);
            },
            None => {},
        }
    } else {
        assert(s.take(0) =~= Seq::<(String, PerWidgetStats)>::empty());
    }
}

/// Comparing a state with itself reports nothing: no widget added or
/// removed, none degraded or improved, no significant degradation.
pub proof fn law_compare_with_itself(
    stats: Seq<(String, PerWidgetStats)>,
    threshold: u64,
    t: TrendView,
)
    requires
        distinct_keys(stats),
        is_trend_report(t, stats, stats, threshold),
    ensures
        t.added.len() == 0,
        t.removed.len() == 0,
        t.degraded.len() == 0,
        t.improved.len() == 0,
        !t.significant_degradation,
{
    lemma_self_compare_prefix(stats, stats.len() as int);
    assert(stats.take(stats.len() as int) =~= stats);
}

/// Every trend listed as degraded got slower and every trend listed as
/// improved got faster.
pub proof fn law_trend_directions(
    current: Seq<(String, PerWidgetStats)>,
    previous: Seq<(String, PerWidgetStats)>,
)
    ensures
        forall|i: int|
            0 <= i < trends_moving(current, previous, true).len() ==> #[trigger] trends_moving(
                current,
                previous,
                true,
            )[i].current_avg_us > trends_moving(current, previous, true)[i].previous_avg_us,
        forall|i: int|
            0 <= i < trends_moving(current, previous, false).len() ==> #[trigger] trends_moving(
                current,
                previous,
                false,
            )[i].current_avg_us < trends_moving(current, previous, false)[i].previous_avg_us,
    decreases current.len(),
{
    if current.len() > 0 {
        law_trend_directions(current.drop_last(), previous);
        let d = trends_moving(current, previous, true);
        let dr = trends_moving(current.drop_last(), previous, true);
        assert forall|i: int| 0 <= i < d.len() implies #[trigger] d[i].current_avg_us > d[i].previous_avg_us by {
            if i < dr.len() {
                assert(d[i] == dr[i]);
            }
        }
        let g = trends_moving(current, previous, false);
        let gr = trends_moving(current.drop_last(), previous, false);
        assert forall|i: int| 0 <= i < g.len() implies #[trigger] g[i].current_avg_us < g[i].previous_avg_us by {
            if i < gr.len() {
                assert(g[i] == gr[i]);
            }
        }
    }
}

/// Whether `t` compares the average render times of its widget: the widget
/// has rendered in both states, and the trend's averages are each state's
/// total render time divided by its render count, the previous one at least a
/// microsecond.
pub open spec fn compares_averages(
    t: WidgetTrend,
    current: Seq<(String, PerWidgetStats)>,
    previous: Seq<(String, PerWidgetStats)>,
) -> bool {
    &&& stats_lookup(current, t.name@) matches Some(c) && c.render_count > 0
        && t.current_avg_us == c.total_time_us / c.render_count
    &&& stats_lookup(previous, t.name@) matches Some(p) && p.render_count > 0
        && t.previous_avg_us == p.total_time_us / p.render_count
    &&& t.previous_avg_us > 0
}

proof fn lemma_lookup_prefix(entries: Seq<(String, PerWidgetStats)>, k: Seq<char>)
    requires
        distinct_keys(entries),
        entries.len() > 0,
    ensures
        distinct_keys(entries.drop_last()),
        stats_lookup(entries.drop_last(), k) is Some ==> stats_lookup(entries, k) == stats_lookup(
            entries.drop_last(),
            k,
        ),
{
    let d = entries.drop_last();
    if stats_lookup(d, k) is Some {
        let j = stats_index(d, k);
        assert(d[j] == entries[j]);
        lemma_lookup_at(entries, j);
    }
}

/// Every trend that moved compares the widget's average render times in the
/// two states (not its totals), and the slower ones got slower, the faster
/// ones faster; so a widget whose average is unchanged is in neither list.
pub proof fn law_trends_compare_averages(
    current: Seq<(String, PerWidgetStats)>,
    previous: Seq<(String, PerWidgetStats)>,
    slower: bool,
)
    requires
        distinct_keys(current),
    ensures
        forall|i: int|
            0 <= i < trends_moving(current, previous, slower).len() ==> {
                let t = #[trigger] trends_moving(current, previous, slower)[i];
                &&& compares_averages(t, current, previous)
                &&& slower ==> t.current_avg_us > t.previous_avg_us
                &&& !slower ==> t.current_avg_us < t.previous_avg_us
            },
    decreases current.len(),
{
    if current.len() > 0 {
        let d = current.drop_last();
        let e = current.last();
        lemma_lookup_prefix(current, e.0@);
        law_trends_compare_averages(d, previous, slower);
        lemma_lookup_at(current, current.len() - 1);
        let all = trends_moving(current, previous, slower);
        let rest = trends_moving(d, previous, slower);
        assert forall|i: int| 0 <= i < all.len() implies {
            let t = #[trigger] all[i];
            &&& compares_averages(t, current, previous)
            &&& slower ==> t.current_avg_us > t.previous_avg_us
            &&& !slower ==> t.current_avg_us < t.previous_avg_us
        } by {
            if i < rest.len() {
                assert(all[i] == rest[i]);
                lemma_lookup_prefix(current, rest[i].name@);
            }
        }
    }
}

/// In a trend report every degraded widget got slower and every improved one
/// faster, each judged by its average render time (total render time divided
/// by render count) in the two states.
pub proof fn law_trend_report_compares_averages(
    t: TrendView,
    current: Seq<(String, PerWidgetStats)>,
    previous: Seq<(String, PerWidgetStats)>,
    threshold: u64,
)
    requires
        distinct_keys(current),
        is_trend_report(t, current, previous, threshold),
    ensures
        forall|i: int|
            0 <= i < t.degraded.len() ==> compares_averages(#[trigger] t.degraded[i], current, previous)
                && t.degraded[i].current_avg_us > t.degraded[i].previous_avg_us,
        forall|i: int|
            0 <= i < t.improved.len() ==> compares_averages(#[trigger] t.improved[i], current, previous)
                && t.improved[i].current_avg_us < t.improved[i].previous_avg_us,
{
    law_trends_compare_averages(current, previous, true);
    law_trends_compare_averages(current, previous, false);
    let dm = trends_moving(current, previous, true);
    let im = trends_moving(current, previous, false);
    let rd = choose|r: Seq<usize>|
        is_arrangement(r, dm.len()) && ordered_by_change(dm, true, r) && t.degraded == arranged(dm, r);
    let ri = choose|r: Seq<usize>|
        is_arrangement(r, im.len()) && ordered_by_change(im, false, r) && t.improved == arranged(im, r);
    assert forall|i: int| 0 <= i < t.degraded.len() implies compares_averages(#[trigger] t.degraded[i], current, previous)
        && t.degraded[i].current_avg_us > t.degraded[i].previous_avg_us by {
        assert(t.degraded[i] == dm[rd[i] as int]);
    }
    assert forall|i: int| 0 <= i < t.improved.len() implies compares_averages(#[trigger] t.improved[i], current, previous)
        && t.improved[i].current_avg_us < t.improved[i].previous_avg_us by {
        assert(t.improved[i] == im[ri[i] as int]);
    }
}

/// Every character of a decimal number is a digit.
proof fn lemma_decimal_digits(n: nat)
    ensures
        forall|i: int| 0 <= i < decimal(n).len() ==> '0' <= #[trigger] decimal(n)[i] <= '9',
    decreases n,
{
    let d = digit_char(n % 10);
    assert('0' <= d <= '9');
    if n >= 10 {
        lemma_decimal_digits(n / 10);
        assert forall|i: int| 0 <= i < decimal(n).len() implies '0' <= #[trigger] decimal(n)[i] <= '9' by {
            if i < decimal(n / 10).len() {
                assert(decimal(n)[i] == decimal(n / 10)[i]);
            }
        }
    } else {
        assert(n % 10 == n);
    }
}

/// The report's header marks the frame as over budget exactly when the last
/// recorded frame has a budget violation of any kind (time or cells): the
/// report's first opening parenthesis is followed by a warning sign and
/// "OVER BUDGET" when there is a violation, and by a check mark when there is
/// none.
pub proof fn law_report_marker_follows_violations(s: Seq<char>, m: ProfilerModel)
    requires
        is_report(s, m),
    ensures
        exists|k: int|
            {
                &&& 0 <= k && k + 1 < s.len()
                &&& #[trigger] s[k] == '('
                &&& forall|j: int| 0 <= j < k ==> s[j] != '('
                &&& (s[k + 1] == '\u{26a0}') == (last_violations(m).len() > 0)
                &&& last_violations(m).len() > 0 ==> k + 14 <= s.len() && s.subrange(k + 1, k + 14)
                    == "\u{26a0} OVER BUDGET"@
                &&& last_violations(m).len() == 0 ==> s[k + 1] == '\u{2713}'
            },
{
    let ws = last_widgets(m);
    let r = choose|r: Seq<usize>|
        is_arrangement(r, ws.len()) && ordered_by_time(ws, r) && s == report_text(
            m,
            #[trigger] arranged(ws, r),
        );
    reveal_strlit("Frame ");
    reveal_strlit(": ");
    reveal_strlit("ms total (");
    reveal_strlit("\u{2713}");
    reveal_strlit("\u{26a0} OVER BUDGET");
    let d1 = decimal(m.frame_number as nat);
    let t = tenths_of_ms(last_total(m));
    let d2 = decimal(t / 10);
    lemma_decimal_digits(m.frame_number as nat);
    lemma_decimal_digits(t / 10);
    let a = "Frame "@ + d1 + ": "@ + fixed_one(t) + "ms total ("@;
    let marker = if last_violations(m).len() == 0 {
        "\u{2713}"@
    } else {
        "\u{26a0} OVER BUDGET"@
    };
    let h = header_line(m);
    assert(h == a + marker + (h.subrange((a.len() + marker.len()) as int, h.len() as int))) by {
        assert(h =~= a + marker + (h.subrange((a.len() + marker.len()) as int, h.len() as int)));
    }
    let k = a.len() - 1;
    assert(s == h + s.subrange(h.len() as int, s.len() as int)) by {
        assert(s =~= h + s.subrange(h.len() as int, s.len() as int));
    }
    assert forall|j: int| 0 <= j < k implies s[j] != '(' by {
        assert(s[j] == a[j]);
        let p1 = 6 + d1.len();
        let p2 = p1 + 2 + d2.len();
        if j < 6 {
        } else if j < p1 {
            assert(a[j] == d1[j - 6]);
        } else if j < p1 + 2 {
        } else if j < p2 {
            assert(a[j] == d2[j - p1 - 2]);
        } else if j < p2 + 2 {
            assert(a[j] == fixed_one(t)[j - p1 - 2]);
        } else {
        }
    }
    assert(s[k] == '(');
    assert(s[k + 1] == marker[0]);
    if last_violations(m).len() > 0 {
        assert(s.subrange(k + 1, k + 14) =~= marker);
    }
}

/// Every CSV row ends with the widget's average render time (its total
/// render time divided by its render count, 0 before the first render) in
/// its own comma-separated field, followed by its full-redraw flag.
pub proof fn law_csv_row_ends_with_average(w: PerWidgetStats)
    ensures
        ({
            let tail = ","@ + decimal(
                if w.render_count == 0 {
                    0
                } else {
                    (w.total_time_us / w.render_count) as nat
                },
            ) + ","@ + bool_text(w.last_was_full_redraw) + "\n"@;
            &&& csv_row(w).len() >= tail.len()
            &&& csv_row(w).subrange(csv_row(w).len() - tail.len(), csv_row(w).len() as int) == tail
        }),
{
    let avg: nat = if w.render_count == 0 {
        0
    } else {
        (w.total_time_us / w.render_count) as nat
    };
    let tail = ","@ + decimal(avg) + ","@ + bool_text(w.last_was_full_redraw) + "\n"@;
    let p = csv_field(w.name@) + ","@ + decimal(w.total_time_us as nat) + ","@ + decimal(
        w.render_count as nat,
    ) + ","@ + decimal(w.last_cells as nat) + ","@ + decimal(w.peak_time_us as nat);
    assert(csv_row(w) =~= p + tail);
    assert(csv_row(w).subrange(p.len() as int, csv_row(w).len() as int) =~= tail);
}

/// A widget's total render time divided by its render count, in whole
/// microseconds (0 before the first render).
pub open spec fn mean_render_us(w: PerWidgetStats) -> nat {
    if w.render_count == 0 {
        0
    } else {
        (w.total_time_us / w.render_count) as nat
    }
}

/// Whether `t` occurs in `s` starting at position `k`.
pub open spec fn occurs_at(s: Seq<char>, t: Seq<char>, k: int) -> bool {
    0 <= k && k + t.len() <= s.len() && s.subrange(k, k + t.len()) == t
}

/// The JSON object of every widget gives as its average render time the
/// widget's total render time divided by its render count (0 before the
/// first render).
pub proof fn law_widget_json_average(w: PerWidgetStats)
    ensures
        ({
            let tag = "\"avg_time_us\": "@ + decimal(mean_render_us(w)) + ","@;
            exists|k: int| #[trigger] occurs_at(widget_json(w), tag, k)
        }),
{
    let tag = "\"avg_time_us\": "@ + decimal(mean_render_us(w)) + ","@;
    let pre = "{"@ + "\"name\": "@ + json_string(w.name@) + ","@ + "\"total_time_us\": "@ + decimal(
        w.total_time_us as nat,
    ) + ","@ + "\"render_count\": "@ + decimal(w.render_count as nat) + ","@
        + "\"last_cells\": "@ + decimal(w.last_cells as nat) + ","@ + "\"peak_time_us\": "@
        + decimal(w.peak_time_us as nat) + ","@;
    let post = "\"last_was_full_redraw\": "@ + bool_text(w.last_was_full_redraw) + ","@
        + "\"full_redraw_allowed\": "@ + bool_text(w.full_redraw_allowed) + "}"@;
    assert(widget_json(w) =~= pre + tag + post);
    let k = pre.len() as int;
    assert(widget_json(w).subrange(k, k + tag.len()) =~= tag);
    assert(occurs_at(widget_json(w), tag, k));
}

/// Nesting depth counts open widgets only: after `begin_widget` the frame's
/// deepest nesting is the larger of what it was and the number of widgets
/// now open; ending a widget leaves it as it was, and a new frame starts it
/// at zero. So widgets begun and ended one after another keep it at one. A
/// depth violation is noted when the open widgets outnumber the depth
/// budget.
pub proof fn law_max_depth_counts_open_widgets(
    m: ProfilerModel,
    name: String,
    cells: usize,
    elapsed: Duration,
)
    requires
        m.stack.len() < usize::MAX,
    ensures
        m.after_begin_widget(name).max_depth == (if m.max_depth >= m.after_begin_widget(
            name,
        ).stack.len() {
            m.max_depth as int
        } else {
            m.after_begin_widget(name).stack.len() as int
        }),
        m.after_end_widget(cells, elapsed).max_depth == m.max_depth,
        m.after_begin_frame().max_depth == 0,
        m.after_begin_widget(name).depth_violation == (if m.after_begin_widget(name).stack.len()
            > m.budget.max_widget_depth {
            Some(m.after_begin_widget(name).stack.len() as usize)
        } else {
            m.depth_violation
        }),
        m.stack.len() == 0 && m.max_depth <= 1 ==> m.after_begin_widget(name).after_end_widget(
            cells,
            elapsed,
        ).max_depth <= 1,
{
}

/// Whether the widget `e` of the current state moved against the previous
/// state in the given direction: it rendered in both, its previous average
/// is at least a microsecond, and its average grew (`slower`) or shrank.
pub open spec fn moved(e: (String, PerWidgetStats), previous: Seq<(String, PerWidgetStats)>, slower: bool) -> bool {
    stats_lookup(previous, e.0@) matches Some(p) && p.render_count > 0 && e.1.render_count > 0
        && p.total_time_us / p.render_count > 0 && (if slower {
        e.1.total_time_us / e.1.render_count > p.total_time_us / p.render_count
    } else {
        e.1.total_time_us / e.1.render_count < p.total_time_us / p.render_count
    })
}

proof fn lemma_moved_listed(
    current: Seq<(String, PerWidgetStats)>,
    previous: Seq<(String, PerWidgetStats)>,
    slower: bool,
    k: int,
)
    requires
        0 <= k < current.len(),
        moved(current[k], previous, slower),
    ensures
        exists|i: int|
            0 <= i < trends_moving(current, previous, slower).len() && (#[trigger] trends_moving(
                current,
                previous,
                slower,
            )[i]).name == current[k].0,
    decreases current.len(),
{
    let d = current.drop_last();
    let all = trends_moving(current, previous, slower);
    let rest = trends_moving(d, previous, slower);
    if k < d.len() {
        assert(d[k] == current[k]);
        lemma_moved_listed(d, previous, slower, k);
        let i = choose|i: int| 0 <= i < rest.len() && (#[trigger] rest[i]).name == d[k].0;
        assert(all[i] == rest[i]);
    } else {
        assert(all[all.len() - 1].name == current[k].0);
    }
}

/// No widget that moved is left out of a trend report: every current widget
/// whose average render time grew against the previous state (having
/// rendered in both, with a previous average of at least a microsecond) is
/// listed as degraded, and every one whose average shrank as improved.
pub proof fn law_trend_report_lists_every_move(
    t: TrendView,
    current: Seq<(String, PerWidgetStats)>,
    previous: Seq<(String, PerWidgetStats)>,
    threshold: u64,
    k: int,
)
    requires
        is_trend_report(t, current, previous, threshold),
        0 <= k < current.len(),
    ensures
        moved(current[k], previous, true) ==> exists|i: int|
            0 <= i < t.degraded.len() && (#[trigger] t.degraded[i]).name == current[k].0,
        moved(current[k], previous, false) ==> exists|i: int|
            0 <= i < t.improved.len() && (#[trigger] t.improved[i]).name == current[k].0,
{
    let dm = trends_moving(current, previous, true);
    let im = trends_moving(current, previous, false);
    let rd = choose|r: Seq<usize>|
        is_arrangement(r, dm.len()) && ordered_by_change(dm, true, r) && t.degraded == arranged(dm, r);
    let ri = choose|r: Seq<usize>|
        is_arrangement(r, im.len()) && ordered_by_change(im, false, r) && t.improved == arranged(im, r);
    if moved(current[k], previous, true) {
        lemma_moved_listed(current, previous, true, k);
        let x = choose|x: int| 0 <= x < dm.len() && (#[trigger] dm[x]).name == current[k].0;
        assert(lists(rd, x));
        let i = choose|a: int| 0 <= a < rd.len() && rd[a] == x;
        assert(t.degraded[i] == dm[x]);
    }
    if moved(current[k], previous, false) {
        lemma_moved_listed(current, previous, false, k);
        let x = choose|x: int| 0 <= x < im.len() && (#[trigger] im[x]).name == current[k].0;
        assert(lists(ri, x));
        let i = choose|a: int| 0 <= a < ri.len() && ri[a] == x;
        assert(t.improved[i] == im[x]);
    }
}

/// A trend report flags a significant degradation exactly when some degraded
/// widget's average grew by more than `threshold` parts per million of its
/// previous average; degraded widgets come largest relative slowdown first,
/// improved ones largest relative speed-up first.
pub proof fn law_trend_report_significance_and_order(
    t: TrendView,
    current: Seq<(String, PerWidgetStats)>,
    previous: Seq<(String, PerWidgetStats)>,
    threshold: u64,
)
    requires
        distinct_keys(current),
        is_trend_report(t, current, previous, threshold),
    ensures
        t.significant_degradation <==> exists|i: int|
            0 <= i < t.degraded.len() && ((#[trigger] t.degraded[i]).current_avg_us
                - t.degraded[i].previous_avg_us) * 1_000_000 > threshold * t.degraded[i].previous_avg_us,
        forall|a: int, b: int|
            0 <= a < b < t.degraded.len() ==> #[trigger] t.degraded[a].current_avg_us
                * t.degraded[b].previous_avg_us >= #[trigger] t.degraded[b].current_avg_us
                * t.degraded[a].previous_avg_us,
        forall|a: int, b: int|
            0 <= a < b < t.improved.len() ==> #[trigger] t.improved[a].current_avg_us
                * t.improved[b].previous_avg_us <= #[trigger] t.improved[b].current_avg_us
                * t.improved[a].previous_avg_us,
{
    law_trend_report_compares_averages(t, current, previous, threshold);
    law_trends_compare_averages(current, previous, true);
    let dm = trends_moving(current, previous, true);
    let im = trends_moving(current, previous, false);
    let rd = choose|r: Seq<usize>|
        is_arrangement(r, dm.len()) && ordered_by_change(dm, true, r) && t.degraded == arranged(dm, r);
    let ri = choose|r: Seq<usize>|
        is_arrangement(r, im.len()) && ordered_by_change(im, false, r) && t.improved == arranged(im, r);
    if t.significant_degradation {
        let k = choose|k: int| 0 <= k < dm.len() && #[trigger] is_significant(dm[k], threshold);
        assert(lists(rd, k));
        let i = choose|a: int| 0 <= a < rd.len() && rd[a] == k;
        assert(t.degraded[i] == dm[k]);
        assert((t.degraded[i].current_avg_us - t.degraded[i].previous_avg_us) * 1_000_000 > threshold
            * t.degraded[i].previous_avg_us);
    }
    if exists|i: int|
        0 <= i < t.degraded.len() && ((#[trigger] t.degraded[i]).current_avg_us
            - t.degraded[i].previous_avg_us) * 1_000_000 > threshold * t.degraded[i].previous_avg_us {
        let i = choose|i: int|
            0 <= i < t.degraded.len() && ((#[trigger] t.degraded[i]).current_avg_us
                - t.degraded[i].previous_avg_us) * 1_000_000 > threshold * t.degraded[i].previous_avg_us;
        let k = rd[i] as int;
        assert(t.degraded[i] == dm[k]);
        assert(is_significant(dm[k], threshold));
    }
    assert forall|a: int, b: int| 0 <= a < b < t.degraded.len() implies #[trigger] t.degraded[a].current_avg_us
        * t.degraded[b].previous_avg_us >= #[trigger] t.degraded[b].current_avg_us
        * t.degraded[a].previous_avg_us by {
        assert(change_before(dm, true, rd[a] as int, rd[b] as int));
        assert(t.degraded[a] == dm[rd[a] as int]);
        assert(t.degraded[b] == dm[rd[b] as int]);
    }
    assert forall|a: int, b: int| 0 <= a < b < t.improved.len() implies #[trigger] t.improved[a].current_avg_us
        * t.improved[b].previous_avg_us <= #[trigger] t.improved[b].current_avg_us
        * t.improved[a].previous_avg_us by {
        assert(change_before(im, false, ri[a] as int, ri[b] as int));
        assert(t.improved[a] == im[ri[a] as int]);
        assert(t.improved[b] == im[ri[b] as int]);
    }
}

/// Which widgets were added or removed: each added name has statistics in
/// the current state and none in the previous one, and every current widget
/// without previous statistics is listed as added; likewise for removed
/// names, with the states swapped.
pub proof fn law_added_and_removed_widgets(
    t: TrendView,
    current: Seq<(String, PerWidgetStats)>,
    previous: Seq<(String, PerWidgetStats)>,
    threshold: u64,
)
    requires
        distinct_keys(current),
        distinct_keys(previous),
        is_trend_report(t, current, previous, threshold),
    ensures
        forall|i: int|
            0 <= i < t.added.len() ==> stats_lookup(current, (#[trigger] t.added[i])@) is Some
                && stats_lookup(previous, t.added[i]@) is None,
        forall|k: int|
            0 <= k < current.len() && stats_lookup(previous, (#[trigger] current[k]).0@) is None
                ==> t.added.contains(current[k].0),
        forall|i: int|
            0 <= i < t.removed.len() ==> stats_lookup(previous, (#[trigger] t.removed[i])@) is Some
                && stats_lookup(current, t.removed[i]@) is None,
        forall|k: int|
            0 <= k < previous.len() && stats_lookup(current, (#[trigger] previous[k]).0@) is None
                ==> t.removed.contains(previous[k].0),
{
    lemma_names_missing(current, previous);
    lemma_names_missing(previous, current);
}

proof fn lemma_names_missing(a: Seq<(String, PerWidgetStats)>, b: Seq<(String, PerWidgetStats)>)
    requires
        distinct_keys(a),
    ensures
        forall|i: int|
            0 <= i < names_missing(a, b).len() ==> stats_lookup(a, (#[trigger] names_missing(a, b)[i])@)
                is Some && stats_lookup(b, names_missing(a, b)[i]@) is None,
        forall|k: int|
            0 <= k < a.len() && stats_lookup(b, (#[trigger] a[k]).0@) is None ==> names_missing(
                a,
                b,
            ).contains(a[k].0),
    decreases a.len(),
{
    if a.len() > 0 {
        let d = a.drop_last();
        lemma_lookup_prefix(a, a.last().0@);
        lemma_names_missing(d, b);
        lemma_lookup_at(a, a.len() - 1);
        let all = names_missing(a, b);
        let rest = names_missing(d, b);
        assert forall|i: int| 0 <= i < all.len() implies stats_lookup(a, (#[trigger] all[i])@) is Some
            && stats_lookup(b, all[i]@) is None by {
            if i < rest.len() {
                assert(all[i] == rest[i]);
                lemma_lookup_prefix(a, rest[i]@);
            }
        }
        assert forall|k: int| 0 <= k < a.len() && stats_lookup(b, (#[trigger] a[k]).0@) is None implies all.contains(
            a[k].0,
        ) by {
            if k < d.len() {
                assert(d[k] == a[k]);
                let x = choose|x: int| 0 <= x < rest.len() && rest[x] == a[k].0;
                assert(all[x] == rest[x]);
            } else {
                assert(all[all.len() - 1] == a[k].0);
            }
        }
    }
}

/// Ending a frame records it: the newest history record holds the frame's
/// total time and its widgets; it has a time violation exactly when the
/// total is over the time budget and a cell violation exactly when the
/// widgets wrote more cells than the cell budget, each carrying the budget
/// and the actual value; the history grows by one, or, when full, drops its
/// oldest record; and the frame's findings are the detector's findings for
/// its widgets.
pub proof fn law_end_frame_records_frame(m: ProfilerModel, total: Duration)
    requires
        RenderProfiler::model_wf(m),
        cells_sum(m.current) <= usize::MAX,
    ensures
        ({
            let after = m.after_end_frame(total);
            let rec = after.history.last();
            let vs = rec.violations;
            &&& after.history.len() > 0
            &&& rec.total_time == total
            &&& rec.widgets == m.current
            &&& (exists|i: int| 0 <= i < vs.len() && (#[trigger] vs[i]) is OverTime) <==> total@
                > m.budget.max_render_time@
            &&& (exists|i: int| 0 <= i < vs.len() && (#[trigger] vs[i]) is DiffTooLarge) <==> cells_sum(
                m.current,
            ) > m.budget.max_diff_cells
            &&& forall|i: int|
                0 <= i < vs.len() ==> match #[trigger] vs[i] {
                    BudgetViolation::OverTime { budget, actual } => budget == m.budget.max_render_time
                        && actual == total,
                    BudgetViolation::DiffTooLarge { budget, actual } => budget == m.budget.max_diff_cells
                        && actual == cells_sum(m.current),
                    BudgetViolation::DepthTooDeep { .. } => false,
                }
            &&& m.history.len() < m.max_history ==> after.history.drop_last() == m.history
            &&& m.history.len() >= m.max_history ==> after.history.drop_last() == m.history.drop_first()
            &&& after.findings == detect_spec(
                m.frame_number,
                total,
                m.current,
                m.stats,
                m.budget,
                m.max_depth,
            )
            &&& after.frame_number == m.frame_number
            &&& after.stats == m.stats
        }),
{
    let after = m.after_end_frame(total);
    let vs = after.history.last().violations;
    let t = opt_violation(m.budget.time_verdict(total));
    let c = opt_violation(m.budget.diff_verdict(cells_sum(m.current) as usize));
    assert(vs == t + c);
    if total@ > m.budget.max_render_time@ {
        assert(vs[0] is OverTime);
    }
    if cells_sum(m.current) > m.budget.max_diff_cells {
        assert(vs[t.len() as int] is DiffTooLarge);
    }
    assert forall|i: int| 0 <= i < vs.len() implies match #[trigger] vs[i] {
        BudgetViolation::OverTime { budget, actual } => budget == m.budget.max_render_time
            && actual == total,
        BudgetViolation::DiffTooLarge { budget, actual } => budget == m.budget.max_diff_cells
            && actual == cells_sum(m.current),
        BudgetViolation::DepthTooDeep { .. } => false,
    } by {
        if i < t.len() {
            assert(vs[i] == t[i]);
        } else {
            assert(vs[i] == c[i - t.len()]);
        }
    }
    assert(after.history.drop_last() =~= (if m.history.len() >= m.max_history {
        m.history.drop_first()
    } else {
        m.history
    }));
}

/// Ending a widget adds its render to its statistics: one more render, the
/// elapsed whole microseconds (taken to 64 bits) added to its total (capped at `u64::MAX`), the
/// peak raised to the elapsed time when it is longer, and the cells written
/// kept as its last cell count, the previous last count kept before it.
pub proof fn law_end_widget_accumulates(m: ProfilerModel, cells: usize, elapsed: Duration)
    requires
        RenderProfiler::model_wf(m),
        m.stack.len() > 0,
        m.can_end_widget(),
    ensures
        ({
            let name = m.stack.last();
            let after = m.after_end_widget(cells, elapsed);
            let us = micros_u64(elapsed) as int;
            let (count, total, peak, last) = match stats_lookup(m.stats, name@) {
                Some(s) => (s.render_count as int, s.total_time_us as int, s.peak_time_us as int, s.last_cells as int),
                None => (0int, 0int, 0int, 0int),
            };
            stats_lookup(after.stats, name@) matches Some(n) && {
                &&& n.name == name
                &&& n.render_count == count + 1
                &&& n.total_time_us == (if total + us > u64::MAX {
                    u64::MAX as int
                } else {
                    total + us
                })
                &&& n.peak_time_us == (if us > peak {
                    us
                } else {
                    peak
                })
                &&& n.last_cells == cells
                &&& n.prev_cells == last
            }
        }),
{
    let name = m.stack.last();
    let before = match stats_lookup(m.stats, name@) {
        Some(s) => s,
        None => PerWidgetStats::fresh(name),
    };
    let value = PerWidgetStats { name, ..record_render(before, cells, elapsed) };
    lemma_lookup_inserted(m.stats, name, value, name@);
}

/// The report opens with the frame number and the last frame's total time in
/// milliseconds with one decimal, and its header line gives the frame's time
/// budget in whole milliseconds and the cells its widgets wrote.
pub proof fn law_report_header_figures(s: Seq<char>, m: ProfilerModel)
    requires
        is_report(s, m),
    ensures
        ({
            let opening = "Frame "@ + decimal(m.frame_number as nat) + ": "@ + fixed_one(
                tenths_of_ms(last_total(m)),
            ) + "ms total ("@;
            let closing = ", budget: "@ + decimal(m.budget.max_render_time@ / 1_000_000) + "ms) "@
                + decimal(cells_sum(last_widgets(m))) + " cells\n"@;
            &&& s.len() >= opening.len()
            &&& s.take(opening.len() as int) == opening
            &&& exists|k: int| #[trigger] occurs_at(s, closing, k)
        }),
{
    let ws = last_widgets(m);
    let r = choose|r: Seq<usize>|
        is_arrangement(r, ws.len()) && ordered_by_time(ws, r) && s == report_text(
            m,
            #[trigger] arranged(ws, r),
        );
    let opening = "Frame "@ + decimal(m.frame_number as nat) + ": "@ + fixed_one(
        tenths_of_ms(last_total(m)),
    ) + "ms total ("@;
    let closing = ", budget: "@ + decimal(m.budget.max_render_time@ / 1_000_000) + "ms) "@
        + decimal(cells_sum(last_widgets(m))) + " cells\n"@;
    let marker = if last_violations(m).len() == 0 {
        "\u{2713}"@
    } else {
        "\u{26a0} OVER BUDGET"@
    };
    let rest = s.subrange(header_line(m).len() as int, s.len() as int);
    assert(s =~= opening + marker + closing + rest);
    assert(s.take(opening.len() as int) =~= opening);
    let k = (opening.len() + marker.len()) as int;
    assert(s.subrange(k, k + closing.len()) =~= closing);
    assert(occurs_at(s, closing, k));
}

/// The report lists the last frame's widgets longest render first, each
/// widget once.
pub proof fn law_report_lists_longest_first(s: Seq<char>, m: ProfilerModel)
    requires
        is_report(s, m),
    ensures
        exists|r: Seq<usize>|
            {
                &&& is_arrangement(r, last_widgets(m).len())
                &&& forall|a: int, b: int|
                    0 <= a < b < r.len() ==> last_widgets(m)[#[trigger] r[a] as int].1@ >= last_widgets(
                        m,
                    )[#[trigger] r[b] as int].1@
                &&& s == report_text(m, #[trigger] arranged(last_widgets(m), r))
            },
{
    let ws = last_widgets(m);
    let r = choose|r: Seq<usize>|
        is_arrangement(r, ws.len()) && ordered_by_time(ws, r) && s == report_text(
            m,
            #[trigger] arranged(ws, r),
        );
    assert forall|a: int, b: int| 0 <= a < b < r.len() implies ws[#[trigger] r[a] as int].1@ >= ws[#[trigger] r[b] as int].1@ by {
        assert(time_before(ws, r[a] as int, r[b] as int));
    }
}

/// Cell totals add up: no widgets wrote no cells, and one more widget adds
/// the cells it wrote, for the profiler's frame samples and for the reports
/// of a tracked frame alike.
pub proof fn law_cell_totals_add_up(
    ws: Seq<WidgetSample>,
    w: WidgetSample,
    rs: Seq<WidgetRenderReport>,
    r: WidgetRenderReport,
)
    ensures
        cells_sum(Seq::<WidgetSample>::empty()) == 0,
        cells_sum(ws.push(w)) == cells_sum(ws) + w.2,
        reported_cells(Seq::<WidgetRenderReport>::empty()) == 0,
        reported_cells(rs.push(r)) == reported_cells(rs) + r.cells_written,
{
    assert(ws.push(w).drop_last() =~= ws);
    assert(rs.push(r).drop_last() =~= rs);
}

/// The report of a profiler state is unique: the order of its widget lines
/// is fully determined.
pub proof fn law_report_is_unique(m: ProfilerModel, s1: Seq<char>, s2: Seq<char>)
    requires
        is_report(s1, m),
        is_report(s2, m),
    ensures
        s1 == s2,
{
    let ws = last_widgets(m);
    let r1 = choose|r: Seq<usize>|
        is_arrangement(r, ws.len()) && ordered_by_time(ws, r) && s1 == crate::report::report_text(
            m,
            #[trigger] arranged(ws, r),
        );
    let r2 = choose|r: Seq<usize>|
        is_arrangement(r, ws.len()) && ordered_by_time(ws, r) && s2 == crate::report::report_text(
            m,
            #[trigger] arranged(ws, r),
        );
    let before = |i: int, j: int| time_before(ws, i, j);
    assert(strict_total_on(ws.len(), before));
    assert(lists_in_order(r1, before));
    assert(lists_in_order(r2, before));
    lemma_unique_arrangement(ws.len(), before, r1, r2);
}

/// The order of the exports by widget name is unique, so each export of a
/// profiler state is fully determined.
pub proof fn law_name_order_is_unique(m: ProfilerModel, r1: Seq<usize>, r2: Seq<usize>)
    requires
        by_name(m, r1),
        by_name(m, r2),
    ensures
        r1 == r2,
{
    let ws = stats_values(m.stats);
    let before = |i: int, j: int| name_before(ws, i, j);
    assert forall|i: int| 0 <= i < ws.len() implies !#[trigger] before(i, i) by {
        lemma_lex_irreflexive(ws[i].name@);
    }
    assert forall|i: int, j: int, k: int|
        0 <= i < ws.len() && 0 <= j < ws.len() && 0 <= k < ws.len() && #[trigger] before(i, j)
            && #[trigger] before(j, k) implies before(i, k) by {
        if lex_lt(ws[i].name@, ws[j].name@) && lex_lt(ws[j].name@, ws[k].name@) {
            lemma_lex_transitive(ws[i].name@, ws[j].name@, ws[k].name@);
        }
    }
    assert forall|i: int, j: int| 0 <= i < ws.len() && 0 <= j < ws.len() && i != j implies #[trigger] before(i, j) || before(j, i) by {
        if ws[i].name@ != ws[j].name@ {
            lemma_lex_total(ws[i].name@, ws[j].name@);
        }
    }
    assert(strict_total_on(ws.len(), before));
    assert(lists_in_order(r1, before));
    assert(lists_in_order(r2, before));
    assert(ws.len() == m.stats.len());
    lemma_unique_arrangement(ws.len(), before, r1, r2);
}

/// Inserting each entry of a table, whose keys are distinct and equal to
/// their names, rebuilds the table.
proof fn lemma_stats_from_values(entries: Seq<(String, PerWidgetStats)>)
    requires
        distinct_keys(entries),
        forall|i: int| 0 <= i < entries.len() ==> (#[trigger] entries[i]).0 == entries[i].1.name,
    ensures
        stats_from_list(entries.map_values(|e: (String, PerWidgetStats)| e.1)) == entries,
    decreases entries.len(),
{
    let values = entries.map_values(|e: (String, PerWidgetStats)| e.1);
    if entries.len() > 0 {
        let init = entries.drop_last();
        lemma_stats_from_values(init);
        assert(values.drop_last() =~= init.map_values(|e: (String, PerWidgetStats)| e.1));
        let last = entries.last();
        assert(!(exists|i: int| 0 <= i < init.len() && init[i].0@ == last.1.name@)) by {
            if exists|i: int| 0 <= i < init.len() && init[i].0@ == last.1.name@ {
                let i = choose|i: int| 0 <= i < init.len() && init[i].0@ == last.1.name@;
                assert(entries[i].0@ == entries[entries.len() - 1].0@);
            }
        }
        assert(init.push((last.1.name, last.1)) =~= entries);
    } else {
        assert(values =~= Seq::<PerWidgetStats>::empty());
        assert(entries =~= Seq::<(String, PerWidgetStats)>::empty());
    }
}

/// Saving a profiler and restoring it from the snapshot, with any budget,
/// gives back its frame number, its widget statistics (in the same order),
/// its unmatched-call count and its deepest nesting, under the new budget.
pub proof fn law_snapshot_roundtrip(m: ProfilerModel, budget: FrameBudget)
    requires
        RenderProfiler::model_wf(m),
    ensures
        ({
            let r = ProfilerModel::restored(m.snapshot(), budget);
            &&& r.frame_number == m.frame_number
            &&& r.stats == m.stats
            &&& r.unmatched == m.unmatched
            &&& r.max_depth == m.max_depth
            &&& r.budget == budget
        }),
{
    lemma_stats_from_values(m.stats);
}

/// Sorting trends by relative change has exactly one result.
pub proof fn law_trend_order_is_unique(
    out1: Seq<WidgetTrend>,
    out2: Seq<WidgetTrend>,
    ts: Seq<WidgetTrend>,
    descending: bool,
)
    requires
        forall|i: int| 0 <= i < ts.len() ==> #[trigger] ts[i].previous_avg_us > 0,
        sorted_by_change(out1, ts, descending),
        sorted_by_change(out2, ts, descending),
    ensures
        out1 == out2,
{
    let r1 = choose|r: Seq<usize>|
        is_arrangement(r, ts.len()) && ordered_by_change(ts, descending, r) && out1 == arranged(ts, r);
    let r2 = choose|r: Seq<usize>|
        is_arrangement(r, ts.len()) && ordered_by_change(ts, descending, r) && out2 == arranged(ts, r);
    let before = |i: int, j: int| change_before(ts, descending, i, j);
    assert forall|i: int, j: int, k: int|
        0 <= i < ts.len() && 0 <= j < ts.len() && 0 <= k < ts.len() && #[trigger] before(i, j)
            && #[trigger] before(j, k) implies before(i, k) by {
        let (a1, b1) = (ts[i].current_avg_us as int, ts[i].previous_avg_us as int);
        let (a2, b2) = (ts[j].current_avg_us as int, ts[j].previous_avg_us as int);
        let (a3, b3) = (ts[k].current_avg_us as int, ts[k].previous_avg_us as int);
        lemma_ratio_order(a1, b1, a2, b2, a3, b3);
        lemma_ratio_order(a3, b3, a2, b2, a1, b1);
    }
    assert(strict_total_on(ts.len(), before));
    assert(lists_in_order(r1, before));
    assert(lists_in_order(r2, before));
    lemma_unique_arrangement(ts.len(), before, r1, r2);
}

} // verus!
