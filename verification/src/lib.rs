//! Render budget tracking and waste detection for terminal UI applications.
//!
//! A [`RenderProfiler`] times each frame and each widget inside it, checks
//! the frame against a [`FrameBudget`], and runs the [`WasteDetector`]
//! heuristics over the widgets that rendered.
pub mod budget;
pub mod detector;
pub mod escape;
pub mod error;
pub mod laws;
pub mod profiler;
pub mod ratatui_adapter;
pub mod report;
pub mod reporter;
pub mod sort;
pub mod stats;
pub mod text;
pub mod time;
pub mod trend;

pub use budget::{BudgetViolation, DetectionConfig, FrameBudget, PPM};
pub use detector::{Severity, WasteCategory, WasteDetector, WasteFinding, WidgetSample};
pub use error::GuardianError;
pub use profiler::{
    FrameRecord, ProfilerModel, ProfilerSnapshot, RecordView, RenderProfiler, SnapshotView,
    MAX_HISTORY,
};
pub use report::ReportFormatter;
pub use reporter::Reporter;
pub use stats::{PerWidgetStats, WidgetStatsMap};
pub use trend::{TrendReport, TrendView, WidgetTrend};
pub use time::{Duration, MAX_DURATION_NANOS};
