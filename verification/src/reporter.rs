//! Multi-format export of profiler data: JSON, Prometheus exposition format
//! and CSV, for dashboards, monitoring systems and analysis tools.
use vstd::prelude::*;

use crate::budget::BudgetViolation;
use crate::detector::{Severity, WasteFinding};
use crate::escape::{csv_field, escaped, json_string, push_csv_field, push_escaped, push_json_string, TextStyle};
use crate::profiler::{cells_sum, ProfilerModel, RenderProfiler};
use crate::report::{count_severity, last_violations, last_widgets};
use crate::sort::{arranged, is_arrangement, sorted_positions, PositionOrder};
use crate::stats::{PerWidgetStats, WidgetStatsMap};
use crate::text::{
    bool_text, decimal, div_round_even, fixed_one, lex_lt,
    lemma_append_assoc, lemma_lex_irreflexive, lemma_lex_total, lemma_lex_transitive, push_bool, push_decimal,
    push_fixed_one, push_str, round_div, str_lt,
};
use crate::trend::{TrendReport, TrendView, WidgetTrend};

verus! {

broadcast use lemma_append_assoc;

/// The statistics of a table, in table order.
pub open spec fn stats_values(entries: Seq<(String, PerWidgetStats)>) -> Seq<PerWidgetStats> {
    entries.map_values(|e: (String, PerWidgetStats)| e.1)
}

/// The order of statistics by widget name, ties kept in order.
pub open spec fn name_before(ws: Seq<PerWidgetStats>, i: int, j: int) -> bool {
    lex_lt(ws[i].name@, ws[j].name@) || (ws[i].name@ == ws[j].name@ && i < j)
}

/// Whether `r` lists the statistics by name.
pub open spec fn ordered_by_name(ws: Seq<PerWidgetStats>, r: Seq<usize>) -> bool {
    forall|a: int, b: int| 0 <= a < b < r.len() ==> name_before(ws, r[a] as int, r[b] as int)
}

/// Statistics ordered by widget name.
pub struct NameOrder<'a> {
    pub stats: &'a [PerWidgetStats],
}

impl<'a> PositionOrder for NameOrder<'a> {
    open spec fn size(&self) -> nat {
        self.stats@.len()
    }

    open spec fn valid(&self) -> bool {
        true
    }

    open spec fn precedes(&self, i: int, j: int) -> bool {
        name_before(self.stats@, i, j)
    }

    fn precedes_exec(&self, i: usize, j: usize) -> (b: bool) {
        let a = &self.stats[i].name;
        let c = &self.stats[j].name;
        str_lt(a.as_str(), c.as_str()) || (*a == *c && i < j)
    }

    proof fn lemma_strict_total(&self, i: int, j: int, k: int) {
        let s = self.stats@;
        lemma_lex_irreflexive(s[i].name@);
        if lex_lt(s[i].name@, s[j].name@) && lex_lt(s[j].name@, s[k].name@) {
            lemma_lex_transitive(s[i].name@, s[j].name@, s[k].name@);
        }
        if s[i].name@ != s[j].name@ {
            lemma_lex_total(s[i].name@, s[j].name@);
        }
    }
}

/// The average render time in whole microseconds, as exported.
pub open spec fn avg_us(w: PerWidgetStats) -> nat {
    w.avg_time_us()
}

/// The JSON object of one widget.
pub open spec fn widget_json(w: PerWidgetStats) -> Seq<char> {
    "{"@ + "\"name\": "@ + json_string(w.name@) + ","@ + "\"total_time_us\": "@ + decimal(
        w.total_time_us as nat,
    ) + ","@ + "\"render_count\": "@ + decimal(w.render_count as nat) + ","@
        + "\"last_cells\": "@ + decimal(w.last_cells as nat) + ","@ + "\"peak_time_us\": "@
        + decimal(w.peak_time_us as nat) + ","@ + "\"avg_time_us\": "@ + decimal(avg_us(w)) + ","@
        + "\"last_was_full_redraw\": "@ + bool_text(w.last_was_full_redraw) + ","@
        + "\"full_redraw_allowed\": "@ + bool_text(w.full_redraw_allowed) + "}"@
}

/// The JSON objects of the widgets, comma separated.
pub open spec fn widgets_json(ws: Seq<PerWidgetStats>) -> Seq<char>
    decreases ws.len(),
{
    if ws.len() == 0 {
        Seq::empty()
    } else if ws.len() == 1 {
        widget_json(ws[0])
    } else {
        widgets_json(ws.drop_last()) + ","@ + widget_json(ws.last())
    }
}

/// The JSON object of one finding.
pub open spec fn finding_json(f: WasteFinding) -> Seq<char> {
    "{"@ + "\"frame\": "@ + decimal(f.frame as nat) + ","@ + "\"severity\": "@ + json_string(
        f.severity.text(),
    ) + ","@ + "\"message\": "@ + json_string(f.category.text()) + "}"@
}

/// The JSON objects of the findings, comma separated.
pub open spec fn findings_json(fs: Seq<WasteFinding>) -> Seq<char>
    decreases fs.len(),
{
    if fs.len() == 0 {
        Seq::empty()
    } else if fs.len() == 1 {
        finding_json(fs[0])
    } else {
        findings_json(fs.drop_last()) + ","@ + finding_json(fs.last())
    }
}

/// The JSON strings of the violations, comma separated.
pub open spec fn violations_json(vs: Seq<BudgetViolation>) -> Seq<char>
    decreases vs.len(),
{
    if vs.len() == 0 {
        Seq::empty()
    } else if vs.len() == 1 {
        json_string(vs[0].text())
    } else {
        violations_json(vs.drop_last()) + ","@ + json_string(vs.last().text())
    }
}

/// The relative change of a trend in percent, with one decimal: the sign,
/// then the magnitude rounded to the nearest tenth (ties to even). A zero
/// previous average has no finite change, which is written as `null`.
pub open spec fn change_text(t: WidgetTrend) -> Seq<char> {
    let diff: nat = if t.current_avg_us >= t.previous_avg_us {
        (t.current_avg_us - t.previous_avg_us) as nat
    } else {
        (t.previous_avg_us - t.current_avg_us) as nat
    };
    if t.previous_avg_us == 0 {
        "null"@
    } else {
        (if t.current_avg_us < t.previous_avg_us {
            "-"@
        } else {
            Seq::empty()
        }) + fixed_one(div_round_even(diff * 1000, t.previous_avg_us as nat))
    }
}

/// The JSON object of one trend.
pub open spec fn trend_json(t: WidgetTrend) -> Seq<char> {
    "{"@ + "\"name\": "@ + json_string(t.name@) + ","@ + "\"previous_avg_us\": "@ + decimal(
        t.previous_avg_us as nat,
    ) + ","@ + "\"current_avg_us\": "@ + decimal(t.current_avg_us as nat) + ","@
        + "\"change_percent\": "@ + change_text(t) + "}"@
}

/// The JSON objects of the trends, comma separated.
pub open spec fn trends_json(ts: Seq<WidgetTrend>) -> Seq<char>
    decreases ts.len(),
{
    if ts.len() == 0 {
        Seq::empty()
    } else if ts.len() == 1 {
        trend_json(ts[0])
    } else {
        trends_json(ts.drop_last()) + ","@ + trend_json(ts.last())
    }
}

/// The trend section of the JSON export.
pub open spec fn trend_section(t: TrendView) -> Seq<char> {
    ",\"trend\": {"@ + "\"significant_degradation\": "@ + bool_text(t.significant_degradation)
        + ","@ + "\"degraded\": ["@ + trends_json(t.degraded) + "],\"improved\": ["@ + trends_json(
        t.improved,
    ) + "]"@ + "}"@
}

/// The last frame time in whole microseconds, if a frame was recorded.
pub open spec fn last_time_us(m: ProfilerModel) -> Option<nat> {
    if m.history.len() == 0 {
        None
    } else {
        Some(m.history.last().total_time@ / 1000)
    }
}

/// The JSON export, with the widgets in the given order.
pub open spec fn json_text(m: ProfilerModel, widgets: Seq<PerWidgetStats>, trend: Option<TrendView>) -> Seq<char> {
    "{"@ + "\"frame_number\": "@ + decimal(m.frame_number as nat) + ","@ + (match last_time_us(m) {
        Some(t) => "\"last_frame_time_us\": "@ + decimal(t) + ","@,
        None => Seq::empty(),
    }) + "\"budget\": {\"max_render_time_us\": "@ + decimal(m.budget.max_render_time@ / 1000)
        + ", \"max_diff_cells\": "@ + decimal(m.budget.max_diff_cells as nat)
        + ", \"max_widget_depth\": "@ + decimal(m.budget.max_widget_depth as nat) + "},"@
        + "\"widgets\": ["@ + widgets_json(widgets) + "],"@ + "\"findings\": ["@ + findings_json(
        m.findings,
    ) + "],"@ + "\"violations\": ["@ + violations_json(last_violations(m)) + "]"@ + (match trend {
        Some(t) => trend_section(t),
        None => Seq::empty(),
    }) + "}"@
}

/// One Prometheus sample line of a widget: 0 total time, 1 render count,
/// 2 peak time, 3 last cells.
pub open spec fn metric_line(w: PerWidgetStats, which: nat) -> Seq<char> {
    if which == 0 {
        "guardian_widget_total_time_us{widget=\""@ + escaped(TextStyle::Label, w.name@) + "\"} "@ + decimal(
            w.total_time_us as nat,
        ) + "\n"@
    } else if which == 1 {
        "guardian_widget_render_count{widget=\""@ + escaped(TextStyle::Label, w.name@) + "\"} "@ + decimal(
            w.render_count as nat,
        ) + "\n"@
    } else if which == 2 {
        "guardian_widget_peak_time_us{widget=\""@ + escaped(TextStyle::Label, w.name@) + "\"} "@ + decimal(
            w.peak_time_us as nat,
        ) + "\n"@
    } else {
        "guardian_widget_last_cells{widget=\""@ + escaped(TextStyle::Label, w.name@) + "\"} "@ + decimal(
            w.last_cells as nat,
        ) + "\n"@
    }
}

/// The sample lines of one metric for all widgets.
pub open spec fn metric_lines(ws: Seq<PerWidgetStats>, which: nat) -> Seq<char>
    decreases ws.len(),
{
    if ws.len() == 0 {
        Seq::empty()
    } else {
        metric_lines(ws.drop_last(), which) + metric_line(ws.last(), which)
    }
}

/// The Prometheus export, with the widgets in the given order.
pub open spec fn prometheus_text(m: ProfilerModel, widgets: Seq<PerWidgetStats>) -> Seq<char> {
    let fs = m.findings;
    let critical = count_severity(fs, Severity::Critical);
    let warnings = count_severity(fs, Severity::Warning);
    (match last_time_us(m) {
        Some(t) => "# HELP guardian_frame_time_us Total time for the last profiled frame in microseconds.\n"@
            + "# TYPE guardian_frame_time_us gauge\n"@ + "guardian_frame_time_us "@ + decimal(t)
            + "\n\n"@,
        None => Seq::empty(),
    }) + "# HELP guardian_frame_total_cells Total cells written in the last frame.\n"@
        + "# TYPE guardian_frame_total_cells gauge\n"@ + "guardian_frame_total_cells "@ + decimal(
        cells_sum(last_widgets(m)),
    ) + "\n\n"@ + "# HELP guardian_findings_total Number of waste findings by severity.\n"@
        + "# TYPE guardian_findings_total gauge\n"@
        + "guardian_findings_total{severity=\"critical\"} "@ + decimal(critical) + "\n"@
        + "guardian_findings_total{severity=\"warning\"} "@ + decimal(warnings) + "\n"@
        + "guardian_findings_total{severity=\"hint\"} "@ + decimal(
        (fs.len() - warnings - critical) as nat,
    ) + "\n\n"@
        + "# HELP guardian_widget_total_time_us Total render time for this widget in microseconds.\n"@
        + "# TYPE guardian_widget_total_time_us counter\n"@ + metric_lines(widgets, 0) + "\n"@
        + "# HELP guardian_widget_render_count Number of times this widget has been rendered.\n"@
        + "# TYPE guardian_widget_render_count counter\n"@ + metric_lines(widgets, 1) + "\n"@
        + "# HELP guardian_widget_peak_time_us Peak render time for this widget in microseconds.\n"@
        + "# TYPE guardian_widget_peak_time_us gauge\n"@ + metric_lines(widgets, 2) + "\n"@
        + "# HELP guardian_widget_last_cells Cells written by this widget in the last render.\n"@
        + "# TYPE guardian_widget_last_cells gauge\n"@ + metric_lines(widgets, 3)
}

/// One CSV row.
pub open spec fn csv_row(w: PerWidgetStats) -> Seq<char> {
    csv_field(w.name@) + ","@ + decimal(w.total_time_us as nat) + ","@ + decimal(w.render_count as nat) + ","@
        + decimal(w.last_cells as nat) + ","@ + decimal(w.peak_time_us as nat) + ","@ + decimal(
        avg_us(w),
    ) + ","@ + bool_text(w.last_was_full_redraw) + "\n"@
}

/// The CSV rows of the widgets.
pub open spec fn csv_rows(ws: Seq<PerWidgetStats>) -> Seq<char>
    decreases ws.len(),
{
    if ws.len() == 0 {
        Seq::empty()
    } else {
        csv_rows(ws.drop_last()) + csv_row(ws.last())
    }
}

/// The CSV export, with the widgets in the given order.
pub open spec fn csv_text(widgets: Seq<PerWidgetStats>) -> Seq<char> {
    "widget,total_time_us,render_count,last_cells,peak_time_us,avg_time_us,full_redraw\n"@
        + csv_rows(widgets)
}

/// Whether `r` lists the widget statistics of `m` by name.
pub open spec fn by_name(m: ProfilerModel, r: Seq<usize>) -> bool {
    is_arrangement(r, m.stats.len()) && ordered_by_name(stats_values(m.stats), r)
}

/// The widget statistics of `m` in the order `r`.
pub open spec fn named(m: ProfilerModel, r: Seq<usize>) -> Seq<PerWidgetStats> {
    arranged(stats_values(m.stats), r)
}

/// Builder for exporting profiler data in multiple formats.
pub struct Reporter<'a> {
    profiler: &'a RenderProfiler,
    trend: Option<&'a TrendReport>,
}

/// A copy of the statistics of a table, in table order.
fn values_of(m: &WidgetStatsMap) -> (v: Vec<PerWidgetStats>)
    ensures
        v@ == stats_values(m@),
{
    let n = m.len();
    let mut v: Vec<PerWidgetStats> = Vec::new();
    let mut i: usize = 0;
    while i < n
        invariant
            n == m@.len(),
            i <= n,
            v@ == stats_values(m@.take(i as int)),
        decreases n - i,
    {
        v.push(m.value_at(i).clone());
        proof {
            assert(v@ =~= stats_values(m@.take(i + 1)));
        }
        i = i + 1;
    }
    proof {
        assert(m@.take(n as int) =~= m@);
    }
    v
}

/// The statistics ordered by name.
fn sorted_by_name(m: &WidgetStatsMap) -> (v: Vec<PerWidgetStats>)
    ensures
        exists|r: Seq<usize>| #[trigger] arranged(stats_values(m@), r) == v@ && is_arrangement(r, m@.len()) && ordered_by_name(stats_values(m@), r),
{
    let values = values_of(m);
    let order = NameOrder { stats: values.as_slice() };
    let r = sorted_positions(&order, values.len());
    let mut out: Vec<PerWidgetStats> = Vec::new();
    let mut a: usize = 0;
    while a < r.len()
        invariant
            a <= r@.len(),
            r@.len() == values@.len(),
            forall|b: int| 0 <= b < r@.len() ==> r@[b] < values@.len(),
            out@ == arranged(values@, r@.take(a as int)),
        decreases r.len() - a,
    {
        out.push(values[r[a]].clone());
        proof {
            assert(out@ =~= arranged(values@, r@.take(a + 1)));
        }
        a = a + 1;
    }
    proof {
        assert(r@.take(r@.len() as int) =~= r@);
        assert forall|a: int, b: int| 0 <= a < b < r@.len() implies name_before(
            values@,
            r@[a] as int,
            r@[b] as int,
        ) by {
            assert(order.precedes(r@[a] as int, r@[b] as int));
        }
        assert(arranged(stats_values(m@), r@) == out@);
    }
    out
}

fn push_widget_json(out: &mut String, w: &PerWidgetStats)
    ensures
        final(out)@ == old(out)@ + widget_json(*w),
{
    push_str(out, "{");
    push_str(out, "\"name\": ");
    push_json_string(out, w.name.as_str());
    push_str(out, ",");
    push_str(out, "\"total_time_us\": ");
    push_decimal(out, w.total_time_us as u128);
    push_str(out, ",");
    push_str(out, "\"render_count\": ");
    push_decimal(out, w.render_count as u128);
    push_str(out, ",");
    push_str(out, "\"last_cells\": ");
    push_decimal(out, w.last_cells as u128);
    push_str(out, ",");
    push_str(out, "\"peak_time_us\": ");
    push_decimal(out, w.peak_time_us as u128);
    push_str(out, ",");
    push_str(out, "\"avg_time_us\": ");
    push_decimal(out, w.avg_time().as_micros());
    push_str(out, ",");
    push_str(out, "\"last_was_full_redraw\": ");
    push_bool(out, w.last_was_full_redraw);
    push_str(out, ",");
    push_str(out, "\"full_redraw_allowed\": ");
    push_bool(out, w.full_redraw_allowed);
    push_str(out, "}");
}

fn push_finding_json(out: &mut String, f: &WasteFinding)
    ensures
        final(out)@ == old(out)@ + finding_json(*f),
{
    push_str(out, "{");
    push_str(out, "\"frame\": ");
    push_decimal(out, f.frame as u128);
    push_str(out, ",");
    push_str(out, "\"severity\": ");
    let severity = f.severity.to_string();
    push_json_string(out, severity.as_str());
    push_str(out, ",");
    push_str(out, "\"message\": ");
    let message = f.category.to_string();
    push_json_string(out, message.as_str());
    push_str(out, "}");
    assert(final(out)@ =~= old(out)@ + finding_json(*f));
}

fn push_trend_json(out: &mut String, t: &WidgetTrend)
    ensures
        final(out)@ == old(out)@ + trend_json(*t),
{
    push_str(out, "{");
    push_str(out, "\"name\": ");
    push_json_string(out, t.name.as_str());
    push_str(out, ",");
    push_str(out, "\"previous_avg_us\": ");
    push_decimal(out, t.previous_avg_us as u128);
    push_str(out, ",");
    push_str(out, "\"current_avg_us\": ");
    push_decimal(out, t.current_avg_us as u128);
    push_str(out, ",");
    push_str(out, "\"change_percent\": ");
    let diff: u64 = if t.current_avg_us >= t.previous_avg_us {
        t.current_avg_us - t.previous_avg_us
    } else {
        t.previous_avg_us - t.current_avg_us
    };
    if t.previous_avg_us == 0 {
        push_str(out, "null");
    } else {
        if t.current_avg_us < t.previous_avg_us {
            push_str(out, "-");
        }
        let tenths = round_div((diff as u128) * 1000, t.previous_avg_us as u128);
        push_fixed_one(out, tenths);
    }
    push_str(out, "}");
    assert(final(out)@ =~= old(out)@ + trend_json(*t));
}

fn push_widgets_json(out: &mut String, ws: &[PerWidgetStats])
    ensures
        final(out)@ == old(out)@ + widgets_json(ws@),
{
    let ghost start = out@;
    let mut i: usize = 0;
    while i < ws.len()
        invariant
            i <= ws@.len(),
            out@ == start + widgets_json(ws@.take(i as int)),
        decreases ws.len() - i,
    {
        proof {
            assert(ws@.take(i + 1).drop_last() =~= ws@.take(i as int));
        }
        if i > 0 {
            push_str(out, ",");
        }
        push_widget_json(out, &ws[i]);
        proof {
            if i == 0 {
                assert(ws@.take(1)[0] == ws@[0]);
            }
            assert(out@ =~= start + widgets_json(ws@.take(i + 1)));
        }
        i = i + 1;
    }
    proof {
        assert(ws@.take(ws@.len() as int) =~= ws@);
    }
}

fn push_findings_json(out: &mut String, fs: &[WasteFinding])
    ensures
        final(out)@ == old(out)@ + findings_json(fs@),
{
    let ghost start = out@;
    let mut i: usize = 0;
    while i < fs.len()
        invariant
            i <= fs@.len(),
            out@ == start + findings_json(fs@.take(i as int)),
        decreases fs.len() - i,
    {
        proof {
            assert(fs@.take(i + 1).drop_last() =~= fs@.take(i as int));
        }
        if i > 0 {
            push_str(out, ",");
        }
        push_finding_json(out, &fs[i]);
        proof {
            if i == 0 {
                assert(fs@.take(1)[0] == fs@[0]);
            }
            assert(out@ =~= start + findings_json(fs@.take(i + 1)));
        }
        i = i + 1;
    }
    proof {
        assert(fs@.take(fs@.len() as int) =~= fs@);
    }
}

fn push_violations_json(out: &mut String, vs: &[BudgetViolation])
    ensures
        final(out)@ == old(out)@ + violations_json(vs@),
{
    let ghost start = out@;
    let mut i: usize = 0;
    while i < vs.len()
        invariant
            i <= vs@.len(),
            out@ == start + violations_json(vs@.take(i as int)),
        decreases vs.len() - i,
    {
        proof {
            assert(vs@.take(i + 1).drop_last() =~= vs@.take(i as int));
        }
        if i > 0 {
            push_str(out, ",");
        }
        let text = vs[i].to_string();
        push_json_string(out, text.as_str());
        proof {
            if i == 0 {
                assert(vs@.take(1)[0] == vs@[0]);
            }
            assert(out@ =~= start + violations_json(vs@.take(i + 1)));
        }
        i = i + 1;
    }
    proof {
        assert(vs@.take(vs@.len() as int) =~= vs@);
    }
}

fn push_trends_json(out: &mut String, ts: &[WidgetTrend])
    ensures
        final(out)@ == old(out)@ + trends_json(ts@),
{
    let ghost start = out@;
    let mut i: usize = 0;
    while i < ts.len()
        invariant
            i <= ts@.len(),
            out@ == start + trends_json(ts@.take(i as int)),
        decreases ts.len() - i,
    {
        proof {
            assert(ts@.take(i + 1).drop_last() =~= ts@.take(i as int));
        }
        if i > 0 {
            push_str(out, ",");
        }
        push_trend_json(out, &ts[i]);
        proof {
            if i == 0 {
                assert(ts@.take(1)[0] == ts@[0]);
            }
            assert(out@ =~= start + trends_json(ts@.take(i + 1)));
        }
        i = i + 1;
    }
    proof {
        assert(ts@.take(ts@.len() as int) =~= ts@);
    }
}

fn push_metric_line(out: &mut String, w: &PerWidgetStats, which: u8)
    requires
        which < 4,
    ensures
        final(out)@ == old(out)@ + metric_line(*w, which as nat),
{
    if which == 0 {
        push_str(out, "guardian_widget_total_time_us{widget=\"");
        push_escaped(out, TextStyle::Label, w.name.as_str());
        push_str(out, "\"} ");
        push_decimal(out, w.total_time_us as u128);
    } else if which == 1 {
        push_str(out, "guardian_widget_render_count{widget=\"");
        push_escaped(out, TextStyle::Label, w.name.as_str());
        push_str(out, "\"} ");
        push_decimal(out, w.render_count as u128);
    } else if which == 2 {
        push_str(out, "guardian_widget_peak_time_us{widget=\"");
        push_escaped(out, TextStyle::Label, w.name.as_str());
        push_str(out, "\"} ");
        push_decimal(out, w.peak_time_us as u128);
    } else {
        push_str(out, "guardian_widget_last_cells{widget=\"");
        push_escaped(out, TextStyle::Label, w.name.as_str());
        push_str(out, "\"} ");
        push_decimal(out, w.last_cells as u128);
    }
    push_str(out, "\n");
}

fn push_metric_lines(out: &mut String, ws: &[PerWidgetStats], which: u8)
    requires
        which < 4,
    ensures
        final(out)@ == old(out)@ + metric_lines(ws@, which as nat),
{
    let ghost start = out@;
    let mut i: usize = 0;
    while i < ws.len()
        invariant
            i <= ws@.len(),
            which < 4,
            out@ == start + metric_lines(ws@.take(i as int), which as nat),
        decreases ws.len() - i,
    {
        proof {
            assert(ws@.take(i + 1).drop_last() =~= ws@.take(i as int));
        }
        push_metric_line(out, &ws[i], which);
        proof {
            assert(metric_lines(ws@.take(i + 1), which as nat) == metric_lines(
                ws@.take(i as int),
                which as nat,
            ) + metric_line(ws@[i as int], which as nat));
        }
        i = i + 1;
    }
    proof {
        assert(ws@.take(ws@.len() as int) =~= ws@);
    }
}

fn push_csv_row(out: &mut String, w: &PerWidgetStats)
    ensures
        final(out)@ == old(out)@ + csv_row(*w),
{
    push_csv_field(out, w.name.as_str());
    push_str(out, ",");
    push_decimal(out, w.total_time_us as u128);
    push_str(out, ",");
    push_decimal(out, w.render_count as u128);
    push_str(out, ",");
    push_decimal(out, w.last_cells as u128);
    push_str(out, ",");
    push_decimal(out, w.peak_time_us as u128);
    push_str(out, ",");
    push_decimal(out, w.avg_time().as_micros());
    push_str(out, ",");
    push_bool(out, w.last_was_full_redraw);
    push_str(out, "\n");
}

fn push_csv_rows(out: &mut String, ws: &[PerWidgetStats])
    ensures
        final(out)@ == old(out)@ + csv_rows(ws@),
{
    let ghost start = out@;
    let mut i: usize = 0;
    while i < ws.len()
        invariant
            i <= ws@.len(),
            out@ == start + csv_rows(ws@.take(i as int)),
        decreases ws.len() - i,
    {
        proof {
            assert(ws@.take(i + 1).drop_last() =~= ws@.take(i as int));
        }
        push_csv_row(out, &ws[i]);
        proof {
            assert(csv_rows(ws@.take(i + 1)) == csv_rows(ws@.take(i as int)) + csv_row(ws@[i as int]));
        }
        i = i + 1;
    }
    proof {
        assert(ws@.take(ws@.len() as int) =~= ws@);
    }
}

impl<'a> Reporter<'a> {
    /// The profiler whose data this reporter exports.
    pub closed spec fn source(&self) -> RenderProfiler {
        *self.profiler
    }

    /// The attached trend report, if any.
    pub closed spec fn attached_trend(&self) -> Option<TrendView> {
        match self.trend {
            Some(t) => Some(t@),
            None => None,
        }
    }

    /// A reporter over the current profiler state, with no trend attached.
    pub fn from_profiler(profiler: &'a RenderProfiler) -> (r: Self)
        ensures
            r.source() == *profiler,
            r.attached_trend() is None,
    {
        Reporter { profiler, trend: None }
    }

    /// Attach trend data (from `RenderProfiler::compare`) for richer exports.
    pub fn with_trend(self, trend: &'a TrendReport) -> (r: Self)
        ensures
            r.source() == self.source(),
            r.attached_trend() == Some(trend@),
    {
        Reporter { profiler: self.profiler, trend: Some(trend) }
    }

    /// Export as structured JSON: frame number, last frame time, budget,
    /// widgets sorted by name, findings, violations, and the trend when one
    /// is attached.
    pub fn to_json(&self) -> (s: String)
        ensures
            exists|r: Seq<usize>|
                by_name(self.source()@, r) && s@ == json_text(
                    self.source()@,
                    #[trigger] named(self.source()@, r),
                    self.attached_trend(),
                ),
    {
        let p = self.profiler;
        let ghost m = p@;
        let budget = p.budget();
        let mut json = String::new();
        push_str(&mut json, "{");
        push_str(&mut json, "\"frame_number\": ");
        push_decimal(&mut json, p.last_frame() as u128);
        push_str(&mut json, ",");
        match p.last_frame_time() {
            Some(t) => {
                push_str(&mut json, "\"last_frame_time_us\": ");
                push_decimal(&mut json, t.as_micros());
                push_str(&mut json, ",");
            },
            None => {},
        }
        push_str(&mut json, "\"budget\": {\"max_render_time_us\": ");
        push_decimal(&mut json, budget.max_render_time.as_micros());
        push_str(&mut json, ", \"max_diff_cells\": ");
        push_decimal(&mut json, budget.max_diff_cells as u128);
        push_str(&mut json, ", \"max_widget_depth\": ");
        push_decimal(&mut json, budget.max_widget_depth as u128);
        push_str(&mut json, "},");
        let sorted = sorted_by_name(p.widget_stats());
        push_str(&mut json, "\"widgets\": [");
        push_widgets_json(&mut json, sorted.as_slice());
        push_str(&mut json, "],");
        push_str(&mut json, "\"findings\": [");
        push_findings_json(&mut json, p.last_findings());
        push_str(&mut json, "],");
        push_str(&mut json, "\"violations\": [");
        push_violations_json(&mut json, p.last_violations());
        push_str(&mut json, "]");
        match self.trend {
            Some(trend) => {
                proof {
                    assert(self.attached_trend() == Some(trend@));
                }
                push_str(&mut json, ",\"trend\": {");
                push_str(&mut json, "\"significant_degradation\": ");
                push_bool(&mut json, trend.significant_degradation);
                push_str(&mut json, ",");
                push_str(&mut json, "\"degraded\": [");
                push_trends_json(&mut json, trend.degraded.as_slice());
                push_str(&mut json, "],\"improved\": [");
                push_trends_json(&mut json, trend.improved.as_slice());
                push_str(&mut json, "]");
                push_str(&mut json, "}");
            },
            None => {},
        }
        push_str(&mut json, "}");
        proof {
            let r = choose|r: Seq<usize>| #[trigger] arranged(stats_values(m.stats), r) == sorted@
                && is_arrangement(r, m.stats.len()) && ordered_by_name(stats_values(m.stats), r);
            assert(json@ =~= json_text(m, named(m, r), self.attached_trend()));
            assert(by_name(m, r));
            assert(self.source()@ == m);
        }
        json
    }

    /// The reporter's text form: the JSON export.
    pub fn to_string(&self) -> (s: String)
        ensures
            exists|r: Seq<usize>|
                by_name(self.source()@, r) && s@ == json_text(
                    self.source()@,
                    #[trigger] named(self.source()@, r),
                    self.attached_trend(),
                ),
    {
        self.to_json()
    }

    /// Export as Prometheus exposition-format metrics: the last frame's time
    /// and cells, the findings by severity, and per widget (sorted by name)
    /// its total time, render count, peak time and last cells.
    pub fn to_prometheus(&self) -> (s: String)
        ensures
            exists|r: Seq<usize>|
                by_name(self.source()@, r) && s@ == prometheus_text(
                    self.source()@,
                    #[trigger] named(self.source()@, r),
                ),
    {
        let p = self.profiler;
        let ghost m = p@;
        let mut out = String::new();
        match p.last_frame_time() {
            Some(t) => {
                push_str(
                    &mut out,
                    "# HELP guardian_frame_time_us Total time for the last profiled frame in microseconds.\n",
                );
                push_str(&mut out, "# TYPE guardian_frame_time_us gauge\n");
                push_str(&mut out, "guardian_frame_time_us ");
                push_decimal(&mut out, t.as_micros());
                push_str(&mut out, "\n\n");
            },
            None => {},
        }
        push_str(&mut out, "# HELP guardian_frame_total_cells Total cells written in the last frame.\n");
        push_str(&mut out, "# TYPE guardian_frame_total_cells gauge\n");
        push_str(&mut out, "guardian_frame_total_cells ");
        push_decimal(&mut out, p.last_frame_total_cells() as u128);
        push_str(&mut out, "\n\n");
        let findings = p.last_findings();
        let (critical, warnings) = severity_counts(findings);
        push_str(&mut out, "# HELP guardian_findings_total Number of waste findings by severity.\n");
        push_str(&mut out, "# TYPE guardian_findings_total gauge\n");
        push_str(&mut out, "guardian_findings_total{severity=\"critical\"} ");
        push_decimal(&mut out, critical as u128);
        push_str(&mut out, "\n");
        push_str(&mut out, "guardian_findings_total{severity=\"warning\"} ");
        push_decimal(&mut out, warnings as u128);
        push_str(&mut out, "\n");
        push_str(&mut out, "guardian_findings_total{severity=\"hint\"} ");
        push_decimal(&mut out, (findings.len() - warnings - critical) as u128);
        push_str(&mut out, "\n\n");
        let sorted = sorted_by_name(p.widget_stats());
        push_str(
            &mut out,
            "# HELP guardian_widget_total_time_us Total render time for this widget in microseconds.\n",
        );
        push_str(&mut out, "# TYPE guardian_widget_total_time_us counter\n");
        push_metric_lines(&mut out, sorted.as_slice(), 0);
        push_str(&mut out, "\n");
        push_str(
            &mut out,
            "# HELP guardian_widget_render_count Number of times this widget has been rendered.\n",
        );
        push_str(&mut out, "# TYPE guardian_widget_render_count counter\n");
        push_metric_lines(&mut out, sorted.as_slice(), 1);
        push_str(&mut out, "\n");
        push_str(
            &mut out,
            "# HELP guardian_widget_peak_time_us Peak render time for this widget in microseconds.\n",
        );
        push_str(&mut out, "# TYPE guardian_widget_peak_time_us gauge\n");
        push_metric_lines(&mut out, sorted.as_slice(), 2);
        push_str(&mut out, "\n");
        push_str(
            &mut out,
            "# HELP guardian_widget_last_cells Cells written by this widget in the last render.\n",
        );
        push_str(&mut out, "# TYPE guardian_widget_last_cells gauge\n");
        push_metric_lines(&mut out, sorted.as_slice(), 3);
        proof {
            let r = choose|r: Seq<usize>| #[trigger] arranged(stats_values(m.stats), r) == sorted@
                && is_arrangement(r, m.stats.len()) && ordered_by_name(stats_values(m.stats), r);
            assert(out@ =~= prometheus_text(m, named(m, r)));
            assert(by_name(m, r));
            assert(self.source()@ == m);
        }
        out
    }

    /// Export as CSV, one row per widget sorted by name. Columns: widget,
    /// total_time_us, render_count, last_cells, peak_time_us, avg_time_us,
    /// full_redraw.
    pub fn to_csv(&self) -> (s: String)
        ensures
            exists|r: Seq<usize>|
                by_name(self.source()@, r) && s@ == csv_text(
                    #[trigger] named(self.source()@, r),
                ),
    {
        let p = self.profiler;
        let ghost m = p@;
        let mut csv = String::new();
        push_str(
            &mut csv,
            "widget,total_time_us,render_count,last_cells,peak_time_us,avg_time_us,full_redraw\n",
        );
        let sorted = sorted_by_name(p.widget_stats());
        push_csv_rows(&mut csv, sorted.as_slice());
        proof {
            let r = choose|r: Seq<usize>| #[trigger] arranged(stats_values(m.stats), r) == sorted@
                && is_arrangement(r, m.stats.len()) && ordered_by_name(stats_values(m.stats), r);
            assert(csv@ =~= csv_text(named(m, r)));
            assert(by_name(m, r));
            assert(named(self.source()@, r) == named(m, r));
        }
        csv
    }
}

/// The numbers of critical and of warning findings.
fn severity_counts(fs: &[WasteFinding]) -> (r: (usize, usize))
    ensures
        r.0 == count_severity(fs@, Severity::Critical),
        r.1 == count_severity(fs@, Severity::Warning),
        r.0 + r.1 <= fs@.len(),
{
    let mut critical: usize = 0;
    let mut warnings: usize = 0;
    let mut i: usize = 0;
    while i < fs.len()
        invariant
            i <= fs@.len(),
            critical + warnings <= i,
            critical == count_severity(fs@.take(i as int), Severity::Critical),
            warnings == count_severity(fs@.take(i as int), Severity::Warning),
        decreases fs.len() - i,
    {
        proof {
            assert(fs@.take(i + 1).drop_last() =~= fs@.take(i as int));
        }
        match fs[i].severity {
            Severity::Critical => {
                critical = critical + 1;
            },
            Severity::Warning => {
                warnings = warnings + 1;
            },
            Severity::Hint => {},
        }
        i = i + 1;
    }
    proof {
        assert(fs@.take(fs@.len() as int) =~= fs@);
    }
    (critical, warnings)
}

} // verus!
