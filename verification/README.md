# ratatui_guardian

Render budget tracking and waste detection for terminal UI applications,
written in Verus with its behaviour stated in contracts and proved.

A `RenderProfiler` times each frame and each widget in it, checks the frame
against a `FrameBudget` (render time, cells touched, nesting depth), and runs
the `WasteDetector` heuristics (hogs, full redraws for small changes,
suspected per-frame allocation, deep nesting). `ReportFormatter` renders a
human-readable report; `Reporter` exports JSON, Prometheus metrics and CSV;
`compare` reports how widget render times moved between two profiler states.

Times are held as `Duration`, a nanosecond count covering the range of the
standard library's durations, so that budgets and ratios are computed
exactly. Fractions (the hog threshold, the significance threshold of
`compare`) are given in parts per million.

## Layout

- `src/` — the verified library:
  `time` (durations and the clock), `budget`, `detector`, `stats` (the
  per-widget table), `profiler`, `trend`, `report`, `reporter`,
  `ratatui_adapter` (cell-counting buffers), `text` (decimal and fixed-point
  text), `escape` (how names are written inside JSON strings, Prometheus
  label values and CSV fields, with the laws that each decodes back to the
  name), `sort` (ordering positions by a strict total order), `error`, and
  `laws` (properties that span several operations).
- `app/` — what stays outside verification: JSON files on disk through serde,
  conversions to and from the standard library's durations, the
  floating-point views (`fraction_of`, `change_percent`), and error display.
- `tests/` — tests of the library on concrete values.
