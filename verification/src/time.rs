//! Spans of time and the monotonic clock.
//!
//! The profiler measures everything in nanoseconds. `Duration` holds such a
//! span as a plain integer, over the same range as the standard library's
//! duration type (up to `u64::MAX` seconds plus 999 999 999 nanoseconds), so
//! that budgets and ratios can be computed exactly.
use vstd::prelude::*;

verus! {

/// The largest span a `Duration` can hold, in nanoseconds.
pub const MAX_DURATION_NANOS: u128 = 18_446_744_073_709_551_615_999_999_999;

/// A span of time with nanosecond precision.
#[derive(Clone, Copy, Debug, PartialEq, Eq, PartialOrd, Ord, Hash, Structural)]
pub struct Duration {
    nanos: u128,
}

impl View for Duration {
    type V = nat;

    /// The span in nanoseconds.
    closed spec fn view(&self) -> nat {
        self.nanos as nat
    }
}

impl Duration {
    /// Every duration lies within the representable range.
    #[verifier::type_invariant]
    pub closed spec fn within_range(self) -> bool {
        self.nanos <= MAX_DURATION_NANOS
    }

    /// What the type invariant says of the view.
    pub proof fn lemma_within_range(self)
        requires
            self.within_range(),
        ensures
            self@ <= MAX_DURATION_NANOS,
    {
    }

    /// The empty span.
    pub fn zero() -> (d: Duration)
        ensures
            d@ == 0,
    {
        Duration { nanos: 0 }
    }

    /// A span of `nanos` nanoseconds.
    pub fn from_nanos(nanos: u64) -> (d: Duration)
        ensures
            d@ == nanos,
    {
        Duration { nanos: nanos as u128 }
    }

    /// A span of `micros` microseconds.
    pub fn from_micros(micros: u64) -> (d: Duration)
        ensures
            d@ == micros * 1000,
    {
        Duration { nanos: micros as u128 * 1000 }
    }

    /// A span of `millis` milliseconds.
    pub fn from_millis(millis: u64) -> (d: Duration)
        ensures
            d@ == millis * 1_000_000,
    {
        Duration { nanos: millis as u128 * 1_000_000 }
    }

    /// A span of `secs` whole seconds.
    pub fn from_secs(secs: u64) -> (d: Duration)
        ensures
            d@ == secs * 1_000_000_000,
    {
        Duration { nanos: secs as u128 * 1_000_000_000 }
    }

    /// A span of `secs` seconds plus `nanos` nanoseconds; whole seconds in
    /// `nanos` carry over into the seconds.
    pub fn new(secs: u64, nanos: u32) -> (d: Duration)
        requires
            secs + nanos / 1_000_000_000 <= u64::MAX,
        ensures
            d@ == secs * 1_000_000_000 + nanos,
    {
        Duration { nanos: secs as u128 * 1_000_000_000 + nanos as u128 }
    }

    /// A span given in nanoseconds as a wide integer.
    pub fn from_nanos_u128(nanos: u128) -> (d: Duration)
        requires
            nanos <= MAX_DURATION_NANOS,
        ensures
            d@ == nanos,
    {
        Duration { nanos }
    }

    /// The span in nanoseconds.
    pub fn as_nanos(&self) -> (n: u128)
        ensures
            n == self@,
    {
        self.nanos
    }

    /// The span in whole microseconds.
    pub fn as_micros(&self) -> (n: u128)
        ensures
            n == self@ / 1000,
    {
        self.nanos / 1000
    }

    /// The span in whole milliseconds.
    pub fn as_millis(&self) -> (n: u128)
        ensures
            n == self@ / 1_000_000,
    {
        self.nanos / 1_000_000
    }

    /// The whole seconds of the span.
    pub fn as_secs(&self) -> (n: u64)
        ensures
            n == self@ / 1_000_000_000,
    {
        proof {
            use_type_invariant(self);
        }
        (self.nanos / 1_000_000_000) as u64
    }

    /// The nanoseconds beyond the whole seconds of the span.
    pub fn subsec_nanos(&self) -> (n: u32)
        ensures
            n == self@ % 1_000_000_000,
    {
        (self.nanos % 1_000_000_000) as u32
    }

    /// Whether the span is empty.
    pub fn is_zero(&self) -> (b: bool)
        ensures
            b == (self@ == 0),
    {
        self.nanos == 0
    }

    /// Whether this span is strictly longer than `other`.
    pub fn longer_than(&self, other: &Duration) -> (b: bool)
        ensures
            b == (self@ > other@),
    {
        self.nanos > other.nanos
    }
}

/// A reading of the monotonic clock.
#[verifier::external_type_specification]
#[verifier::external_body]
pub struct ExInstant(std::time::Instant);

/// Reads the monotonic clock (`std::time::Instant::now`). Nothing is claimed
/// of the reading: it depends on the time at which it is taken.
#[verifier::external_body]
pub(crate) fn clock_now() -> std::time::Instant {
    std::time::Instant::now()
}

/// The time elapsed since `start` (`std::time::Instant::elapsed`), converted
/// to nanoseconds. The claim is only that it fits the range of a duration,
/// which every duration of the standard library does; its value depends on
/// the time at which it is taken.
#[verifier::external_body]
pub(crate) fn clock_nanos_since(start: &std::time::Instant) -> (n: u128)
    ensures
        n <= MAX_DURATION_NANOS,
{
    start.elapsed().as_nanos()
}

/// The time elapsed since `start`, as a duration.
pub(crate) fn elapsed_since(start: &std::time::Instant) -> (d: Duration)
    ensures
        d@ <= MAX_DURATION_NANOS,
{
    let n = clock_nanos_since(start);
    Duration::from_nanos_u128(n)
}

} // verus!
