//! Terminal-friendly report formatting.
//!
//! Produces output like:
//! ```text
//! Frame 847: 12.0ms total (✓, budget: 16ms) 2080 cells
//!   StatusBar: 8.0ms (67%) for 80 cells — HOG
//!   Body: 3.0ms (25%) for 2000 cells
//!   1 findings: 0 critical, 1 warnings, 0 hints
//!     [warning] StatusBar consumed 66% of frame time
//! ```
//!
//! Times are written in milliseconds with one decimal and shares in whole
//! percent, both rounded to the nearest value with ties to even.
use vstd::prelude::*;

use crate::budget::BudgetViolation;
use crate::detector::{Severity, WasteCategory, WasteFinding, WidgetSample};
use crate::profiler::{cells_sum, ProfilerModel, RenderProfiler};
use crate::sort::{arranged, is_arrangement, sorted_positions, PositionOrder};
use crate::text::{
    decimal, div_round_even, fixed_one, push_decimal, push_fixed_one, push_str, round_div,
};
use crate::time::MAX_DURATION_NANOS;

verus! {

/// A span in tenths of a millisecond, rounded.
pub open spec fn tenths_of_ms(nanos: nat) -> nat {
    div_round_even(nanos, 100_000)
}

/// The share of `total` that `part` is, in whole percent, rounded (0 when
/// `total` is zero).
pub open spec fn percent_rounded(part: nat, total: nat) -> nat {
    if total == 0 {
        0
    } else {
        div_round_even(part * 100, total)
    }
}

/// The label that a finding puts on the widget `name`, if it is about it.
pub open spec fn finding_label(f: WasteFinding, name: Seq<char>) -> Option<Seq<char>> {
    match f.category {
        WasteCategory::Hog { widget, .. } => if widget@ == name {
            Some("HOG"@)
        } else {
            None
        },
        WasteCategory::FullRedrawForSmallChange { widget, .. } => if widget@ == name {
            Some("FULL-REDRAW"@)
        } else {
            None
        },
        WasteCategory::SuspectedAllocation { widget, .. } => if widget@ == name {
            Some("ALLOCATES"@)
        } else {
            None
        },
        WasteCategory::DeepNesting { .. } => None,
    }
}

/// The labels that the findings put on the widget `name`, in order.
pub open spec fn labels_for(fs: Seq<WasteFinding>, name: Seq<char>) -> Seq<Seq<char>>
    decreases fs.len(),
{
    if fs.len() == 0 {
        Seq::empty()
    } else {
        let rest = labels_for(fs.drop_last(), name);
        match finding_label(fs.last(), name) {
            Some(l) => rest.push(l),
            None => rest,
        }
    }
}

/// The parts joined with `sep` between them.
pub open spec fn joined(parts: Seq<Seq<char>>, sep: Seq<char>) -> Seq<char>
    decreases parts.len(),
{
    if parts.len() == 0 {
        Seq::empty()
    } else if parts.len() == 1 {
        parts[0]
    } else {
        joined(parts.drop_last(), sep) + sep + parts.last()
    }
}

/// The annotation of a widget's line: its labels after a dash, or nothing.
pub open spec fn annotation(fs: Seq<WasteFinding>, name: Seq<char>) -> Seq<char> {
    let labels = labels_for(fs, name);
    if labels.len() == 0 {
        Seq::empty()
    } else {
        " \u{2014} "@ + joined(labels, ", "@)
    }
}

/// The line of one widget of the last frame.
pub open spec fn widget_line(w: WidgetSample, total: nat, fs: Seq<WasteFinding>) -> Seq<char> {
    "  "@ + w.0@ + ": "@ + fixed_one(tenths_of_ms(w.1@)) + "ms ("@ + decimal(
        percent_rounded(w.1@, total),
    ) + "%) for "@ + decimal(w.2 as nat) + " cells"@ + annotation(fs, w.0@) + "\n"@
}

/// The lines of the widgets, in the given order.
pub open spec fn widget_lines(ws: Seq<WidgetSample>, total: nat, fs: Seq<WasteFinding>) -> Seq<char>
    decreases ws.len(),
{
    if ws.len() == 0 {
        Seq::empty()
    } else {
        widget_lines(ws.drop_last(), total, fs) + widget_line(ws.last(), total, fs)
    }
}

/// One line per violation.
pub open spec fn violation_lines(vs: Seq<BudgetViolation>) -> Seq<char>
    decreases vs.len(),
{
    if vs.len() == 0 {
        Seq::empty()
    } else {
        violation_lines(vs.drop_last()) + "  \u{26a0} "@ + vs.last().text() + "\n"@
    }
}

/// How many findings have the given severity.
pub open spec fn count_severity(fs: Seq<WasteFinding>, sev: Severity) -> nat
    decreases fs.len(),
{
    if fs.len() == 0 {
        0
    } else {
        count_severity(fs.drop_last(), sev) + if fs.last().severity == sev {
            1nat
        } else {
            0nat
        }
    }
}

/// One line per finding.
pub open spec fn finding_lines(fs: Seq<WasteFinding>) -> Seq<char>
    decreases fs.len(),
{
    if fs.len() == 0 {
        Seq::empty()
    } else {
        finding_lines(fs.drop_last()) + "    ["@ + fs.last().severity.text() + "] "@
            + fs.last().category.text() + "\n"@
    }
}

/// The findings summary: counts by severity, then each finding; nothing when
/// there are no findings.
pub open spec fn findings_summary(fs: Seq<WasteFinding>) -> Seq<char> {
    if fs.len() == 0 {
        Seq::empty()
    } else {
        let critical = count_severity(fs, Severity::Critical);
        let warnings = count_severity(fs, Severity::Warning);
        "  "@ + decimal(fs.len()) + " findings: "@ + decimal(critical) + " critical, "@ + decimal(
            warnings,
        ) + " warnings, "@ + decimal((fs.len() - warnings - critical) as nat) + " hints\n"@
            + finding_lines(fs)
    }
}

/// The total time of the last recorded frame, in nanoseconds (0 when there
/// is none).
pub open spec fn last_total(m: ProfilerModel) -> nat {
    if m.history.len() == 0 {
        0
    } else {
        m.history.last().total_time@
    }
}

/// The violations of the last recorded frame.
pub open spec fn last_violations(m: ProfilerModel) -> Seq<BudgetViolation> {
    if m.history.len() == 0 {
        Seq::empty()
    } else {
        m.history.last().violations
    }
}

/// The widgets of the last recorded frame.
pub open spec fn last_widgets(m: ProfilerModel) -> Seq<WidgetSample> {
    if m.history.len() == 0 {
        Seq::empty()
    } else {
        m.history.last().widgets
    }
}

/// The first line of the report.
pub open spec fn header_line(m: ProfilerModel) -> Seq<char> {
    "Frame "@ + decimal(m.frame_number as nat) + ": "@ + fixed_one(tenths_of_ms(last_total(m)))
        + "ms total ("@ + (if last_violations(m).len() == 0 {
        "\u{2713}"@
    } else {
        "\u{26a0} OVER BUDGET"@
    }) + ", budget: "@ + decimal(m.budget.max_render_time@ / 1_000_000) + "ms) "@ + decimal(
        cells_sum(last_widgets(m)),
    ) + " cells\n"@
}

/// The whole report, with the widgets of the last frame in the given order.
pub open spec fn report_text(m: ProfilerModel, widgets: Seq<WidgetSample>) -> Seq<char> {
    header_line(m) + widget_lines(widgets, last_total(m), m.findings) + violation_lines(
        last_violations(m),
    ) + findings_summary(m.findings)
}

/// The order of widgets by render time, longest first, ties kept in order.
pub open spec fn time_before(ws: Seq<WidgetSample>, i: int, j: int) -> bool {
    ws[i].1@ > ws[j].1@ || (ws[i].1@ == ws[j].1@ && i < j)
}

/// Whether `r` lists the widgets by render time, longest first.
pub open spec fn ordered_by_time(ws: Seq<WidgetSample>, r: Seq<usize>) -> bool {
    forall|a: int, b: int| 0 <= a < b < r.len() ==> time_before(ws, r[a] as int, r[b] as int)
}

/// Whether `s` is the report of the profiler state `m`: its text with the
/// widgets of the last frame sorted by render time (there is exactly one such
/// order, ties being kept in render order).
pub open spec fn is_report(s: Seq<char>, m: ProfilerModel) -> bool {
    let ws = last_widgets(m);
    exists|r: Seq<usize>|
        is_arrangement(r, ws.len()) && ordered_by_time(ws, r) && s == report_text(
            m,
            #[trigger] arranged(ws, r),
        )
}

/// Widgets ordered by render time.
pub struct TimeOrder<'a> {
    pub widgets: &'a [WidgetSample],
}

impl<'a> PositionOrder for TimeOrder<'a> {
    open spec fn size(&self) -> nat {
        self.widgets@.len()
    }

    open spec fn valid(&self) -> bool {
        true
    }

    open spec fn precedes(&self, i: int, j: int) -> bool {
        time_before(self.widgets@, i, j)
    }

    fn precedes_exec(&self, i: usize, j: usize) -> (b: bool) {
        let a = self.widgets[i].1.as_nanos();
        let c = self.widgets[j].1.as_nanos();
        a > c || (a == c && i < j)
    }

    proof fn lemma_strict_total(&self, i: int, j: int, k: int) {
    }
}

/// Formatter over a profiler's data, for display.
pub struct ReportFormatter<'a> {
    profiler: &'a RenderProfiler,
}

fn push_tenths_of_ms(out: &mut String, nanos: u128)
    requires
        nanos <= MAX_DURATION_NANOS,
    ensures
        final(out)@ == old(out)@ + fixed_one(tenths_of_ms(nanos as nat)),
{
    let t = round_div(nanos, 100_000);
    push_fixed_one(out, t);
}

fn push_annotation(out: &mut String, fs: &[WasteFinding], name: &String)
    ensures
        final(out)@ == old(out)@ + annotation(fs@, name@),
{
    let ghost start = out@;
    let mut count: usize = 0;
    let mut i: usize = 0;
    while i < fs.len()
        invariant
            i <= fs@.len(),
            count <= i,
            count == labels_for(fs@.take(i as int), name@).len(),
            count == 0 ==> out@ == start,
            count > 0 ==> out@ == start + " \u{2014} "@ + joined(
                labels_for(fs@.take(i as int), name@),
                ", "@,
            ),
        decreases fs.len() - i,
    {
        proof {
            assert(fs@.take(i + 1).drop_last() =~= fs@.take(i as int));
        }
        let ghost before = labels_for(fs@.take(i as int), name@);
        let label: Option<&str> = match &fs[i].category {
            WasteCategory::Hog { widget, .. } => if *widget == *name {
                Some("HOG")
            } else {
                None
            },
            WasteCategory::FullRedrawForSmallChange { widget, .. } => if *widget == *name {
                Some("FULL-REDRAW")
            } else {
                None
            },
            WasteCategory::SuspectedAllocation { widget, .. } => if *widget == *name {
                Some("ALLOCATES")
            } else {
                None
            },
            WasteCategory::DeepNesting { .. } => None,
        };
        match label {
            Some(l) => {
                if count == 0 {
                    push_str(out, " \u{2014} ");
                } else {
                    push_str(out, ", ");
                }
                push_str(out, l);
                proof {
                    let after = labels_for(fs@.take(i + 1), name@);
                    assert(after == before.push(l@));
                    if count == 0 {
                        assert(after.len() == 1);
                        assert(joined(after, ", "@) == after[0]);
                    } else {
                        assert(after.drop_last() =~= before);
                    }
                    assert(out@ =~= start + " \u{2014} "@ + joined(after, ", "@));
                }
                count = count + 1;
            },
            None => {},
        }
        i = i + 1;
    }
    proof {
        assert(fs@.take(fs@.len() as int) =~= fs@);
        if count == 0 {
            assert(out@ =~= start + annotation(fs@, name@));
        } else {
            assert(out@ =~= start + annotation(fs@, name@));
        }
    }
}

fn push_widget_line(out: &mut String, w: &WidgetSample, total: u128, fs: &[WasteFinding])
    requires
        total <= MAX_DURATION_NANOS,
    ensures
        final(out)@ == old(out)@ + widget_line(*w, total as nat, fs@),
{
    let t = w.1.as_nanos();
    proof {
        use_type_invariant(&w.1);
        w.1.lemma_within_range();
    }
    push_str(out, "  ");
    push_str(out, w.0.as_str());
    push_str(out, ": ");
    push_tenths_of_ms(out, t);
    push_str(out, "ms (");
    let pct = if total == 0 {
        0
    } else {
        round_div(t * 100, total)
    };
    push_decimal(out, pct);
    push_str(out, "%) for ");
    push_decimal(out, w.2 as u128);
    push_str(out, " cells");
    push_annotation(out, fs, &w.0);
    push_str(out, "\n");
    assert(final(out)@ =~= old(out)@ + widget_line(*w, total as nat, fs@));
}

fn push_violation_lines(out: &mut String, vs: &[BudgetViolation])
    ensures
        final(out)@ == old(out)@ + violation_lines(vs@),
{
    let ghost start = out@;
    let mut i: usize = 0;
    while i < vs.len()
        invariant
            i <= vs@.len(),
            out@ == start + violation_lines(vs@.take(i as int)),
        decreases vs.len() - i,
    {
        proof {
            assert(vs@.take(i + 1).drop_last() =~= vs@.take(i as int));
        }
        push_str(out, "  \u{26a0} ");
        vs[i].write_to(out);
        push_str(out, "\n");
        proof {
            assert(out@ =~= start + violation_lines(vs@.take(i + 1)));
        }
        i = i + 1;
    }
    proof {
        assert(vs@.take(vs@.len() as int) =~= vs@);
    }
}

proof fn lemma_counts_bounded(fs: Seq<WasteFinding>)
    ensures
        count_severity(fs, Severity::Critical) + count_severity(fs, Severity::Warning) <= fs.len(),
    decreases fs.len(),
{
    if fs.len() > 0 {
        lemma_counts_bounded(fs.drop_last());
    }
}

fn push_findings_summary(out: &mut String, fs: &[WasteFinding])
    ensures
        final(out)@ == old(out)@ + findings_summary(fs@),
{
    if fs.len() == 0 {
        assert(old(out)@ + findings_summary(fs@) =~= old(out)@);
        return;
    }
    let ghost start = out@;
    let mut critical: usize = 0;
    let mut warnings: usize = 0;
    let mut i: usize = 0;
    while i < fs.len()
        invariant
            i <= fs@.len(),
            critical == count_severity(fs@.take(i as int), Severity::Critical),
            warnings == count_severity(fs@.take(i as int), Severity::Warning),
        decreases fs.len() - i,
    {
        proof {
            assert(fs@.take(i + 1).drop_last() =~= fs@.take(i as int));
            lemma_counts_bounded(fs@.take(i as int));
        }
        match fs[i].severity {
            Severity::Critical => {
                critical = critical + 1;
            },
            Severity::Warning => {
                warnings = warnings + 1;
            },
            Severity::Hint => {},
        }
        i = i + 1;
    }
    proof {
        assert(fs@.take(fs@.len() as int) =~= fs@);
        lemma_counts_bounded(fs@);
    }
    push_str(out, "  ");
    push_decimal(out, fs.len() as u128);
    push_str(out, " findings: ");
    push_decimal(out, critical as u128);
    push_str(out, " critical, ");
    push_decimal(out, warnings as u128);
    push_str(out, " warnings, ");
    push_decimal(out, (fs.len() - warnings - critical) as u128);
    push_str(out, " hints\n");
    let ghost mid = out@;
    let mut k: usize = 0;
    while k < fs.len()
        invariant
            k <= fs@.len(),
            out@ == mid + finding_lines(fs@.take(k as int)),
        decreases fs.len() - k,
    {
        proof {
            assert(fs@.take(k + 1).drop_last() =~= fs@.take(k as int));
        }
        push_str(out, "    [");
        fs[k].severity.write_to(out);
        push_str(out, "] ");
        fs[k].category.write_to(out);
        push_str(out, "\n");
        proof {
            assert(out@ =~= mid + finding_lines(fs@.take(k + 1)));
        }
        k = k + 1;
    }
    proof {
        assert(fs@.take(fs@.len() as int) =~= fs@);
        assert(out@ =~= start + findings_summary(fs@));
    }
}

impl<'a> ReportFormatter<'a> {
    /// The profiler whose data this formatter shows.
    pub closed spec fn source(&self) -> RenderProfiler {
        *self.profiler
    }

    /// A formatter over `profiler`.
    pub(crate) fn new(profiler: &'a RenderProfiler) -> (r: Self)
        ensures
            r.source() == *profiler,
    {
        ReportFormatter { profiler }
    }

    /// The underlying profiler.
    pub fn profiler(&self) -> (p: &'a RenderProfiler)
        ensures
            *p == self.source(),
    {
        self.profiler
    }

    /// The report: a header line for the last frame, one line per widget of
    /// the last frame (longest render first, ties in render order), one line
    /// per budget violation, and a summary of the waste findings.
    pub fn to_string(&self) -> (s: String)
        ensures
            is_report(s@, self.source()@),
    {
        let p = self.profiler;
        let ghost m = p@;
        let frame = p.last_frame();
        let total = match p.last_frame_time() {
            Some(t) => t,
            None => crate::time::Duration::zero(),
        };
        let total_ns = total.as_nanos();
        proof {
            use_type_invariant(&total);
            total.lemma_within_range();
        }
        let violations = p.last_violations();
        let findings = p.last_findings();
        let total_cells = p.last_frame_total_cells();
        let mut out = String::new();
        push_str(&mut out, "Frame ");
        push_decimal(&mut out, frame as u128);
        push_str(&mut out, ": ");
        push_tenths_of_ms(&mut out, total_ns);
        push_str(&mut out, "ms total (");
        if violations.len() == 0 {
            push_str(&mut out, "\u{2713}");
        } else {
            push_str(&mut out, "\u{26a0} OVER BUDGET");
        }
        push_str(&mut out, ", budget: ");
        push_decimal(&mut out, p.budget().max_render_time.as_millis());
        push_str(&mut out, "ms) ");
        push_decimal(&mut out, total_cells as u128);
        push_str(&mut out, " cells\n");
        proof {
            assert(out@ =~= header_line(m));
        }
        let history = p.history();
        let n = history.len();
        let empty: Vec<WidgetSample> = Vec::new();
        let widgets: &[WidgetSample] = if n == 0 {
            empty.as_slice()
        } else {
            proof {
                assert(history@[n - 1]@ == m.history[n - 1]);
            }
            history[n - 1].widget_times.as_slice()
        };
        proof {
            assert(widgets@ == last_widgets(m));
        }
        let order = TimeOrder { widgets };
        let r = sorted_positions(&order, widgets.len());
        let ghost head = out@;
        let ghost sorted = arranged(widgets@, r@);
        let mut k: usize = 0;
        while k < r.len()
            invariant
                k <= r@.len(),
                r@.len() == widgets@.len(),
                forall|a: int| 0 <= a < r@.len() ==> r@[a] < widgets@.len(),
                total_ns == last_total(m),
                total_ns <= MAX_DURATION_NANOS,
                findings@ == m.findings,
                sorted == arranged(widgets@, r@),
                out@ == head + widget_lines(sorted.take(k as int), total_ns as nat, findings@),
            decreases r.len() - k,
        {
            proof {
                assert(sorted.take(k + 1).drop_last() =~= sorted.take(k as int));
            }
            push_widget_line(&mut out, &widgets[r[k]], total_ns, findings);
            k = k + 1;
        }
        proof {
            assert(sorted.take(r@.len() as int) =~= sorted);
        }
        push_violation_lines(&mut out, violations);
        push_findings_summary(&mut out, findings);
        proof {
            assert forall|a: int, b: int| 0 <= a < b < r@.len() implies time_before(
                widgets@,
                r@[a] as int,
                r@[b] as int,
            ) by {
                assert(order.precedes(r@[a] as int, r@[b] as int));
            }
            assert(out@ =~= report_text(m, sorted));
            assert(is_arrangement(r@, widgets@.len()) && ordered_by_time(widgets@, r@));
        }
        out
    }
}

impl RenderProfiler {
    /// A human-readable report for the last frame.
    pub fn report(&self) -> (r: ReportFormatter<'_>)
        ensures
            r.source() == *self,
    {
        ReportFormatter::new(self)
    }
}

} // verus!
