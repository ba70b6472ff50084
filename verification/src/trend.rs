//! Trend analysis: how the average render time of each widget moved between
//! two profiler states.
use vstd::prelude::*;

use crate::sort::{arranged, is_arrangement, sorted_positions, PositionOrder};
use crate::stats::{stats_lookup, PerWidgetStats, WidgetStatsMap};

verus! {

/// Trend data for a single widget across two profiler states.
#[derive(Debug)]
pub struct WidgetTrend {
    pub name: String,
    pub previous_avg_us: u64,
    pub current_avg_us: u64,
}

impl Clone for WidgetTrend {
    fn clone(&self) -> (r: Self)
        ensures
            r == *self,
    {
        WidgetTrend {
            name: self.name.clone(),
            previous_avg_us: self.previous_avg_us,
            current_avg_us: self.current_avg_us,
        }
    }
}

/// The result of comparing two profiler states.
#[derive(Debug)]
pub struct TrendReport {
    /// Widgets whose average render time increased, largest change first.
    pub degraded: Vec<WidgetTrend>,
    /// Widgets whose average render time decreased, largest drop first.
    pub improved: Vec<WidgetTrend>,
    /// Widgets present only in the current state.
    pub added: Vec<String>,
    /// Widgets present only in the previous state.
    pub removed: Vec<String>,
    /// Whether any degradation exceeds the significance threshold.
    pub significant_degradation: bool,
}

/// What a trend report holds.
pub struct TrendView {
    pub degraded: Seq<WidgetTrend>,
    pub improved: Seq<WidgetTrend>,
    pub added: Seq<String>,
    pub removed: Seq<String>,
    pub significant_degradation: bool,
}

impl View for TrendReport {
    type V = TrendView;

    open spec fn view(&self) -> TrendView {
        TrendView {
            degraded: self.degraded@,
            improved: self.improved@,
            added: self.added@,
            removed: self.removed@,
            significant_degradation: self.significant_degradation,
        }
    }
}

/// The trend of a widget of the current state against the previous state:
/// there is one when the widget rendered in both and its previous average is
/// at least one microsecond.
pub open spec fn trend_for(e: (String, PerWidgetStats), previous: Seq<(String, PerWidgetStats)>) -> Option<WidgetTrend> {
    match stats_lookup(previous, e.0@) {
        Some(p) => if e.1.render_count == 0 || p.render_count == 0 {
            None
        } else if p.total_time_us / p.render_count == 0 {
            None
        } else {
            Some(
                WidgetTrend {
                    name: e.0,
                    previous_avg_us: (p.total_time_us / p.render_count) as u64,
                    current_avg_us: (e.1.total_time_us / e.1.render_count) as u64,
                },
            )
        },
        None => None,
    }
}

/// The trends of the current widgets, in their order, that got slower
/// (`slower`) or faster (`!slower`).
pub open spec fn trends_moving(
    current: Seq<(String, PerWidgetStats)>,
    previous: Seq<(String, PerWidgetStats)>,
    slower: bool,
) -> Seq<WidgetTrend>
    decreases current.len(),
{
    if current.len() == 0 {
        Seq::empty()
    } else {
        let rest = trends_moving(current.drop_last(), previous, slower);
        match trend_for(current.last(), previous) {
            Some(t) => if (slower && t.current_avg_us > t.previous_avg_us) || (!slower
                && t.current_avg_us < t.previous_avg_us) {
                rest.push(t)
            } else {
                rest
            },
            None => rest,
        }
    }
}

/// The keys of `a`, in order, that have no entry in `b`.
pub open spec fn names_missing(a: Seq<(String, PerWidgetStats)>, b: Seq<(String, PerWidgetStats)>) -> Seq<String>
    decreases a.len(),
{
    if a.len() == 0 {
        Seq::empty()
    } else {
        let rest = names_missing(a.drop_last(), b);
        if stats_lookup(b, a.last().0@) is None {
            rest.push(a.last().0)
        } else {
            rest
        }
    }
}

/// Whether the change of a trend, as a fraction of the previous average,
/// exceeds `threshold` parts per million.
pub open spec fn is_significant(t: WidgetTrend, threshold: u64) -> bool {
    let diff: int = if t.current_avg_us >= t.previous_avg_us {
        t.current_avg_us - t.previous_avg_us
    } else {
        t.previous_avg_us - t.current_avg_us
    };
    diff * 1_000_000 > threshold * t.previous_avg_us
}

/// Whether the relative change of `a` is larger than that of `b`.
pub open spec fn changed_more(a: WidgetTrend, b: WidgetTrend) -> bool {
    a.current_avg_us * b.previous_avg_us > b.current_avg_us * a.previous_avg_us
}

/// The order of trends by relative change, largest first (`descending`) or
/// smallest first, ties kept in their order.
pub open spec fn change_before(ts: Seq<WidgetTrend>, descending: bool, i: int, j: int) -> bool {
    if descending {
        changed_more(ts[i], ts[j]) || (!changed_more(ts[j], ts[i]) && i < j)
    } else {
        changed_more(ts[j], ts[i]) || (!changed_more(ts[i], ts[j]) && i < j)
    }
}

/// Whether `r` lists the trends in the order of `change_before`.
pub open spec fn ordered_by_change(ts: Seq<WidgetTrend>, descending: bool, r: Seq<usize>) -> bool {
    forall|a: int, b: int|
        0 <= a < b < r.len() ==> change_before(ts, descending, r[a] as int, r[b] as int)
}

/// The trends sorted by relative change: some arrangement of them in that
/// order (there is exactly one, the order being strict and total).
pub open spec fn sorted_by_change(out: Seq<WidgetTrend>, ts: Seq<WidgetTrend>, descending: bool) -> bool {
    exists|r: Seq<usize>|
        is_arrangement(r, ts.len()) && ordered_by_change(ts, descending, r) && out == arranged(ts, r)
}

/// The report of comparing `current` against `previous` statistics: the
/// widgets added and removed (in table order), the trends that got slower
/// (largest relative change first) and faster (largest relative drop first),
/// and whether any slowdown changed by more than `threshold` parts per million
/// of its previous average.
pub open spec fn is_trend_report(
    t: TrendView,
    current: Seq<(String, PerWidgetStats)>,
    previous: Seq<(String, PerWidgetStats)>,
    threshold: u64,
) -> bool {
    &&& t.added == names_missing(current, previous)
    &&& t.removed == names_missing(previous, current)
    &&& sorted_by_change(t.degraded, trends_moving(current, previous, true), true)
    &&& sorted_by_change(t.improved, trends_moving(current, previous, false), false)
    &&& t.significant_degradation == exists|i: int|
        0 <= i < trends_moving(current, previous, true).len() && is_significant(
            #[trigger] trends_moving(current, previous, true)[i],
            threshold,
        )
}

pub(crate) proof fn lemma_ratio_order(a1: int, b1: int, a2: int, b2: int, a3: int, b3: int)
    requires
        b1 > 0,
        b2 > 0,
        b3 > 0,
    ensures
        a1 * b2 > a2 * b1 && a2 * b3 >= a3 * b2 ==> a1 * b3 > a3 * b1,
        a1 * b2 >= a2 * b1 && a2 * b3 > a3 * b2 ==> a1 * b3 > a3 * b1,
        a1 * b2 >= a2 * b1 && a2 * b3 >= a3 * b2 ==> a1 * b3 >= a3 * b1,
{
    assert(a1 * b2 > a2 * b1 && a2 * b3 >= a3 * b2 ==> a1 * b3 > a3 * b1) by (nonlinear_arith)
        requires
            b1 > 0,
            b2 > 0,
            b3 > 0,
    ;
    assert(a1 * b2 >= a2 * b1 && a2 * b3 > a3 * b2 ==> a1 * b3 > a3 * b1) by (nonlinear_arith)
        requires
            b1 > 0,
            b2 > 0,
            b3 > 0,
    ;
    assert(a1 * b2 >= a2 * b1 && a2 * b3 >= a3 * b2 ==> a1 * b3 >= a3 * b1) by (nonlinear_arith)
        requires
            b1 > 0,
            b2 > 0,
            b3 > 0,
    ;
}

/// The product of two 64-bit numbers.
fn wide_mul(a: u64, b: u64) -> (r: u128)
    ensures
        r == a * b,
{
    proof {
        assert(a * b <= u64::MAX * u64::MAX) by (nonlinear_arith)
            requires
                a <= u64::MAX,
                b <= u64::MAX,
        ;
    }
    (a as u128) * (b as u128)
}

/// Trends ordered by relative change.
pub struct ChangeOrder<'a> {
    pub trends: &'a Vec<WidgetTrend>,
    pub descending: bool,
}

impl<'a> PositionOrder for ChangeOrder<'a> {
    open spec fn size(&self) -> nat {
        self.trends@.len()
    }

    open spec fn valid(&self) -> bool {
        forall|i: int| 0 <= i < self.trends@.len() ==> #[trigger] self.trends@[i].previous_avg_us > 0
    }

    open spec fn precedes(&self, i: int, j: int) -> bool {
        change_before(self.trends@, self.descending, i, j)
    }

    fn precedes_exec(&self, i: usize, j: usize) -> (b: bool) {
        let a = &self.trends[i];
        let c = &self.trends[j];
        let a_more = wide_mul(a.current_avg_us, c.previous_avg_us) > wide_mul(
            c.current_avg_us,
            a.previous_avg_us,
        );
        let c_more = wide_mul(c.current_avg_us, a.previous_avg_us) > wide_mul(
            a.current_avg_us,
            c.previous_avg_us,
        );
        if self.descending {
            a_more || (!c_more && i < j)
        } else {
            c_more || (!a_more && i < j)
        }
    }

    proof fn lemma_strict_total(&self, i: int, j: int, k: int) {
        let t = self.trends@;
        assert(t[i].previous_avg_us > 0 && t[j].previous_avg_us > 0 && t[k].previous_avg_us > 0);
        let (a1, b1) = (t[i].current_avg_us as int, t[i].previous_avg_us as int);
        let (a2, b2) = (t[j].current_avg_us as int, t[j].previous_avg_us as int);
        let (a3, b3) = (t[k].current_avg_us as int, t[k].previous_avg_us as int);
        lemma_ratio_order(a1, b1, a2, b2, a3, b3);
        lemma_ratio_order(a3, b3, a2, b2, a1, b1);
    }
}

/// The trends at the listed positions, in that order.
pub fn arrange_trends(ts: &Vec<WidgetTrend>, r: &Vec<usize>) -> (out: Vec<WidgetTrend>)
    requires
        forall|a: int| 0 <= a < r@.len() ==> r@[a] < ts@.len(),
    ensures
        out@ == arranged(ts@, r@),
{
    let mut out: Vec<WidgetTrend> = Vec::new();
    let mut a: usize = 0;
    while a < r.len()
        invariant
            a <= r@.len(),
            forall|b: int| 0 <= b < r@.len() ==> r@[b] < ts@.len(),
            out@ == arranged(ts@, r@.take(a as int)),
        decreases r.len() - a,
    {
        out.push(ts[r[a]].clone());
        proof {
            assert(out@ =~= arranged(ts@, r@.take(a + 1)));
        }
        a = a + 1;
    }
    proof {
        assert(r@.take(r@.len() as int) =~= r@);
    }
    out
}

/// The keys of `a`, in order, that have no entry in `b`.
pub fn missing_names(a: &WidgetStatsMap, b: &WidgetStatsMap) -> (r: Vec<String>)
    ensures
        r@ == names_missing(a@, b@),
{
    let entries = a.as_slice();
    let mut r: Vec<String> = Vec::new();
    let mut i: usize = 0;
    while i < entries.len()
        invariant
            entries@ == a@,
            i <= entries@.len(),
            r@ == names_missing(a@.take(i as int), b@),
        decreases entries.len() - i,
    {
        proof {
            assert(a@.take(i + 1).drop_last() =~= a@.take(i as int));
        }
        if !b.contains_key(entries[i].0.as_str()) {
            r.push(entries[i].0.clone());
        }
        i = i + 1;
    }
    proof {
        assert(a@.take(a@.len() as int) =~= a@);
    }
    r
}

/// The trend of one current widget against the previous statistics.
pub fn trend_of(e: &(String, PerWidgetStats), previous: &WidgetStatsMap) -> (r: Option<WidgetTrend>)
    ensures
        r == trend_for(*e, previous@),
{
    match previous.get(e.0.as_str()) {
        Some(p) => {
            if e.1.render_count == 0 || p.render_count == 0 {
                None
            } else if p.total_time_us / p.render_count == 0 {
                None
            } else {
                Some(
                    WidgetTrend {
                        name: e.0.clone(),
                        previous_avg_us: p.total_time_us / p.render_count,
                        current_avg_us: e.1.total_time_us / e.1.render_count,
                    },
                )
            }
        },
        None => None,
    }
}

/// Every trend that `trends_moving` lists had a previous average of at least
/// one microsecond.
pub proof fn lemma_trends_positive(
    current: Seq<(String, PerWidgetStats)>,
    previous: Seq<(String, PerWidgetStats)>,
    slower: bool,
)
    ensures
        forall|i: int|
            0 <= i < trends_moving(current, previous, slower).len() ==> #[trigger] trends_moving(
                current,
                previous,
                slower,
            )[i].previous_avg_us > 0,
    decreases current.len(),
{
    if current.len() > 0 {
        lemma_trends_positive(current.drop_last(), previous, slower);
        let full = trends_moving(current, previous, slower);
        let rest = trends_moving(current.drop_last(), previous, slower);
        assert forall|i: int| 0 <= i < full.len() implies #[trigger] full[i].previous_avg_us > 0 by {
            if i < rest.len() {
                assert(full[i] == rest[i]);
            } else {
                assert(trend_for(current.last(), previous) is Some);
            }
        }
    }
}

/// Compares the statistics of a current and a previous state: the widgets
/// added and removed, the trends that got slower (largest relative change
/// first) and faster (largest relative drop first), and whether any slowdown
/// changed by more than `significance_threshold` parts per million of the
/// previous average.
pub(crate) fn compare_stats(
    current: &WidgetStatsMap,
    previous: &WidgetStatsMap,
    significance_threshold: u64,
) -> (t: TrendReport)
    ensures
        is_trend_report(t@, current@, previous@, significance_threshold),
{
    let added = missing_names(current, previous);
    let removed = missing_names(previous, current);
    let entries = current.as_slice();
    let mut degraded: Vec<WidgetTrend> = Vec::new();
    let mut improved: Vec<WidgetTrend> = Vec::new();
    let mut i: usize = 0;
    while i < entries.len()
        invariant
            entries@ == current@,
            i <= entries@.len(),
            degraded@ == trends_moving(current@.take(i as int), previous@, true),
            improved@ == trends_moving(current@.take(i as int), previous@, false),
        decreases entries.len() - i,
    {
        proof {
            assert(current@.take(i + 1).drop_last() =~= current@.take(i as int));
        }
        match trend_of(&entries[i], previous) {
            Some(t) => {
                if t.current_avg_us > t.previous_avg_us {
                    degraded.push(t);
                } else if t.current_avg_us < t.previous_avg_us {
                    improved.push(t);
                }
            },
            None => {},
        }
        i = i + 1;
    }
    proof {
        assert(current@.take(current@.len() as int) =~= current@);
    }
    let mut significant = false;
    let mut k: usize = 0;
    while k < degraded.len()
        invariant
            k <= degraded@.len(),
            significant == exists|j: int| 0 <= j < k && is_significant(#[trigger] degraded@[j], significance_threshold),
        decreases degraded.len() - k,
    {
        let t = &degraded[k];
        let diff: u64 = if t.current_avg_us >= t.previous_avg_us {
            t.current_avg_us - t.previous_avg_us
        } else {
            t.previous_avg_us - t.current_avg_us
        };
        if (diff as u128) * 1_000_000 > wide_mul(significance_threshold, t.previous_avg_us) {
            significant = true;
        }
        proof {
            if is_significant(degraded@[k as int], significance_threshold) {
                assert(0 <= k < k + 1 && is_significant(degraded@[k as int], significance_threshold));
            }
        }
        k = k + 1;
    }
    proof {
        lemma_trends_positive(current@, previous@, true);
        lemma_trends_positive(current@, previous@, false);
    }
    let order_d = ChangeOrder { trends: &degraded, descending: true };
    let rd = sorted_positions(&order_d, degraded.len());
    let degraded_sorted = arrange_trends(&degraded, &rd);
    let order_i = ChangeOrder { trends: &improved, descending: false };
    let ri = sorted_positions(&order_i, improved.len());
    let improved_sorted = arrange_trends(&improved, &ri);
    proof {
        assert forall|a: int, b: int| 0 <= a < b < rd@.len() implies change_before(
            degraded@,
            true,
            rd@[a] as int,
            rd@[b] as int,
        ) by {
            assert(order_d.precedes(rd@[a] as int, rd@[b] as int));
        }
        assert(is_arrangement(rd@, degraded@.len()) && ordered_by_change(degraded@, true, rd@)
            && degraded_sorted@ == arranged(degraded@, rd@));
        assert forall|a: int, b: int| 0 <= a < b < ri@.len() implies change_before(
            improved@,
            false,
            ri@[a] as int,
            ri@[b] as int,
        ) by {
            assert(order_i.precedes(ri@[a] as int, ri@[b] as int));
        }
        assert(is_arrangement(ri@, improved@.len()) && ordered_by_change(improved@, false, ri@)
            && improved_sorted@ == arranged(improved@, ri@));
    }
    TrendReport {
        degraded: degraded_sorted,
        improved: improved_sorted,
        added,
        removed,
        significant_degradation: significant,
    }
}

} // verus!
