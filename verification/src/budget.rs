//! Frame budget configuration.
//!
//! A `FrameBudget` defines the performance constraints for a single render
//! frame. The most common budget is 16ms (60fps), but each limit can be tuned
//! on its own.
use vstd::prelude::*;

use crate::text::{decimal, push_decimal, push_str};
use crate::time::Duration;

verus! {

/// Parts per million: the unit in which fractions are given.
pub const PPM: u64 = 1_000_000;

/// Configurable thresholds for the waste detection heuristics.
/// Attach to a `FrameBudget` to tune detection sensitivity.
#[derive(Debug, Clone, Copy, PartialEq, Eq, Structural)]
pub struct DetectionConfig {
    /// Fraction of frame time that qualifies a widget as a hog, in parts per
    /// million (600 000 is 60%).
    pub hog_fraction: u64,
    /// Cell count above which the full-redraw heuristic triggers.
    pub full_redraw_cell_threshold: usize,
    /// Microseconds per cell above which per-frame allocation is suspected.
    pub allocation_us_per_cell: u64,
    /// Multiplier on `max_widget_depth` for the cross-check heuristic.
    pub deep_nesting_multiplier: usize,
}

impl DetectionConfig {
    /// The default thresholds: hog above 60% of the frame, full redraw above
    /// 500 cells, allocation above 50µs per cell, nesting multiplier 2.
    pub open spec fn default_spec() -> DetectionConfig {
        DetectionConfig {
            hog_fraction: 600_000,
            full_redraw_cell_threshold: 500,
            allocation_us_per_cell: 50,
            deep_nesting_multiplier: 2,
        }
    }

    /// Detection config with the default thresholds.
    pub fn new() -> (c: Self)
        ensures
            c == Self::default_spec(),
    {
        DetectionConfig {
            hog_fraction: 600_000,
            full_redraw_cell_threshold: 500,
            allocation_us_per_cell: 50,
            deep_nesting_multiplier: 2,
        }
    }

    /// Detection config with custom thresholds.
    pub fn with(
        hog_fraction: u64,
        full_redraw_cell_threshold: usize,
        allocation_us_per_cell: u64,
        deep_nesting_multiplier: usize,
    ) -> (c: Self)
        ensures
            c.hog_fraction == hog_fraction,
            c.full_redraw_cell_threshold == full_redraw_cell_threshold,
            c.allocation_us_per_cell == allocation_us_per_cell,
            c.deep_nesting_multiplier == deep_nesting_multiplier,
    {
        DetectionConfig {
            hog_fraction,
            full_redraw_cell_threshold,
            allocation_us_per_cell,
            deep_nesting_multiplier,
        }
    }
}

impl Default for DetectionConfig {
    fn default() -> (c: Self)
        ensures
            c == Self::default_spec(),
    {
        Self::new()
    }
}

/// Hard limits for a single render frame.
#[derive(Debug, Clone, Copy, PartialEq, Eq, Structural)]
pub struct FrameBudget {
    /// Maximum allowed render time per frame.
    pub max_render_time: Duration,
    /// Maximum number of cells a single diff may touch.
    pub max_diff_cells: usize,
    /// Maximum widget nesting depth before it is flagged.
    pub max_widget_depth: usize,
    /// Detection thresholds.
    pub detection: DetectionConfig,
}

/// A single budget violation.
#[allow(inconsistent_fields)]
#[derive(Debug, Clone, Copy, PartialEq, Eq, Structural)]
pub enum BudgetViolation {
    OverTime { budget: Duration, actual: Duration },
    DiffTooLarge { budget: usize, actual: usize },
    DepthTooDeep { budget: usize, actual: usize },
}

impl FrameBudget {
    /// Budget tuned for 60fps (16ms per frame).
    pub fn for_60fps() -> (b: Self)
        ensures
            b.max_render_time@ == 16_000_000,
            b.max_diff_cells == 10_000,
            b.max_widget_depth == 5,
            b.detection == DetectionConfig::default_spec(),
    {
        FrameBudget {
            max_render_time: Duration::from_millis(16),
            max_diff_cells: 10_000,
            max_widget_depth: 5,
            detection: DetectionConfig::new(),
        }
    }

    /// Budget tuned for 30fps (33ms per frame).
    pub fn for_30fps() -> (b: Self)
        ensures
            b.max_render_time@ == 33_000_000,
            b.max_diff_cells == 10_000,
            b.max_widget_depth == 5,
            b.detection == DetectionConfig::default_spec(),
    {
        FrameBudget {
            max_render_time: Duration::from_millis(33),
            max_diff_cells: 10_000,
            max_widget_depth: 5,
            detection: DetectionConfig::new(),
        }
    }

    /// Budget with custom limits and the default detection config.
    pub fn new(max_render_time: Duration, max_diff_cells: usize, max_widget_depth: usize) -> (b:
        Self)
        ensures
            b.max_render_time == max_render_time,
            b.max_diff_cells == max_diff_cells,
            b.max_widget_depth == max_widget_depth,
            b.detection == DetectionConfig::default_spec(),
    {
        FrameBudget {
            max_render_time,
            max_diff_cells,
            max_widget_depth,
            detection: DetectionConfig::new(),
        }
    }

    /// Budget with custom limits and a custom detection config.
    pub fn with_detection(
        max_render_time: Duration,
        max_diff_cells: usize,
        max_widget_depth: usize,
        detection: DetectionConfig,
    ) -> (b: Self)
        ensures
            b == (FrameBudget { max_render_time, max_diff_cells, max_widget_depth, detection }),
    {
        FrameBudget { max_render_time, max_diff_cells, max_widget_depth, detection }
    }

    /// What `check_time` answers for `elapsed`.
    pub open spec fn time_verdict(self, elapsed: Duration) -> Option<BudgetViolation> {
        if elapsed@ > self.max_render_time@ {
            Some(BudgetViolation::OverTime { budget: self.max_render_time, actual: elapsed })
        } else {
            None
        }
    }

    /// What `check_diff` answers for `cells`.
    pub open spec fn diff_verdict(self, cells: usize) -> Option<BudgetViolation> {
        if cells > self.max_diff_cells {
            Some(BudgetViolation::DiffTooLarge { budget: self.max_diff_cells, actual: cells })
        } else {
            None
        }
    }

    /// What `check_depth` answers for `depth`.
    pub open spec fn depth_verdict(self, depth: usize) -> Option<BudgetViolation> {
        if depth > self.max_widget_depth {
            Some(BudgetViolation::DepthTooDeep { budget: self.max_widget_depth, actual: depth })
        } else {
            None
        }
    }

    /// Check a render duration against this budget.
    pub fn check_time(&self, elapsed: Duration) -> (v: Option<BudgetViolation>)
        ensures
            v == self.time_verdict(elapsed),
    {
        if elapsed.longer_than(&self.max_render_time) {
            Some(BudgetViolation::OverTime { budget: self.max_render_time, actual: elapsed })
        } else {
            None
        }
    }

    /// Check a diff cell count against this budget.
    pub fn check_diff(&self, cells: usize) -> (v: Option<BudgetViolation>)
        ensures
            v == self.diff_verdict(cells),
    {
        if cells > self.max_diff_cells {
            Some(BudgetViolation::DiffTooLarge { budget: self.max_diff_cells, actual: cells })
        } else {
            None
        }
    }

    /// Check a widget depth against this budget.
    pub fn check_depth(&self, depth: usize) -> (v: Option<BudgetViolation>)
        ensures
            v == self.depth_verdict(depth),
    {
        if depth > self.max_widget_depth {
            Some(BudgetViolation::DepthTooDeep { budget: self.max_widget_depth, actual: depth })
        } else {
            None
        }
    }
}

impl Default for FrameBudget {
    fn default() -> (b: Self)
        ensures
            b.max_render_time@ == 16_000_000,
            b.max_diff_cells == 10_000,
            b.max_widget_depth == 5,
            b.detection == DetectionConfig::default_spec(),
    {
        Self::for_60fps()
    }
}

impl BudgetViolation {
    /// The message that describes the violation.
    pub open spec fn text(self) -> Seq<char> {
        match self {
            BudgetViolation::OverTime { budget, actual } => "frame took "@ + decimal(actual@
                / 1_000_000) + "ms (budget: "@ + decimal(budget@ / 1_000_000) + "ms)"@,
            BudgetViolation::DiffTooLarge { budget, actual } => "diff touched "@ + decimal(
                actual as nat,
            ) + " cells (budget: "@ + decimal(budget as nat) + ")"@,
            BudgetViolation::DepthTooDeep { budget, actual } => "widget depth "@ + decimal(
                actual as nat,
            ) + " (budget: "@ + decimal(budget as nat) + ")"@,
        }
    }

    /// Appends the message that describes the violation.
    pub fn write_to(&self, out: &mut String)
        ensures
            final(out)@ == old(out)@ + self.text(),
    {
        match self {
            BudgetViolation::OverTime { budget, actual } => {
                push_str(out, "frame took ");
                push_decimal(out, actual.as_millis());
                push_str(out, "ms (budget: ");
                push_decimal(out, budget.as_millis());
                push_str(out, "ms)");
            },
            BudgetViolation::DiffTooLarge { budget, actual } => {
                push_str(out, "diff touched ");
                push_decimal(out, *actual as u128);
                push_str(out, " cells (budget: ");
                push_decimal(out, *budget as u128);
                push_str(out, ")");
            },
            BudgetViolation::DepthTooDeep { budget, actual } => {
                push_str(out, "widget depth ");
                push_decimal(out, *actual as u128);
                push_str(out, " (budget: ");
                push_decimal(out, *budget as u128);
                push_str(out, ")");
            },
        }
        assert(final(out)@ =~= old(out)@ + self.text());
    }

    /// The message that describes the violation.
    pub fn to_string(&self) -> (s: String)
        ensures
            s@ == self.text(),
    {
        let mut s = String::new();
        self.write_to(&mut s);
        assert(s@ =~= self.text());
        s
    }
}

} // verus!
