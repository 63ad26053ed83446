//! Spans and points of time, as whole nanoseconds.

use vstd::prelude::*;

verus! {

/// A span of time in nanoseconds.
pub type Duration = u128;

/// A point in time: nanoseconds since an origin that a clock fixes once.
pub type Instant = u128;

/// How many nanoseconds a millisecond has.
pub const NANOS_PER_MILLI: u128 = 1_000_000;

/// How many nanoseconds a second has.
pub const NANOS_PER_SEC: u128 = 1_000_000_000;

/// The span of `millis` milliseconds.
pub fn from_millis(millis: u64) -> (span: Duration)
    ensures
        span == millis * 1_000_000,
{
    millis as u128 * NANOS_PER_MILLI
}

/// The span of `secs` seconds.
pub fn from_secs(secs: u64) -> (span: Duration)
    ensures
        span == secs * 1_000_000_000,
{
    secs as u128 * NANOS_PER_SEC
}

/// The whole milliseconds in `span`.
pub fn as_millis(span: Duration) -> (millis: u128)
    ensures
        millis == span / 1_000_000,
{
    span / NANOS_PER_MILLI
}

/// The whole seconds in `span`.
pub fn as_secs(span: Duration) -> (secs: u128)
    ensures
        secs == span / 1_000_000_000,
{
    span / NANOS_PER_SEC
}

/// The later of the origin and `a - b`: how long `a` lies after `b`, or zero
/// when it does not.
pub open spec fn span_since(a: int, b: int) -> int {
    if a > b {
        a - b
    } else {
        0
    }
}

/// How long `later` lies after `earlier`; zero when it lies before.
pub fn saturating_since(later: Instant, earlier: Instant) -> (span: Duration)
    ensures
        span == span_since(later as int, earlier as int),
{
    if later > earlier {
        later - earlier
    } else {
        0
    }
}

/// The point `span` after `start`, held at the last point that exists.
pub open spec fn point_after(start: int, span: int) -> int {
    if start + span > u128::MAX {
        u128::MAX as int
    } else {
        start + span
    }
}

/// The point `span` after `start`, held at the last point that exists.
pub fn after(start: Instant, span: Duration) -> (point: Instant)
    ensures
        point == point_after(start as int, span as int),
{
    start.saturating_add(span)
}

/// The shorter of two spans.
pub open spec fn shorter_of(a: int, b: int) -> int {
    if a <= b {
        a
    } else {
        b
    }
}

/// The shorter of two spans.
pub fn shorter(a: Duration, b: Duration) -> (span: Duration)
    ensures
        span == shorter_of(a as int, b as int),
{
    if a <= b {
        a
    } else {
        b
    }
}

/// `span`, `times` times, held at the longest span that exists.
pub open spec fn scaled(span: int, times: int) -> int {
    if span * times > u128::MAX {
        u128::MAX as int
    } else {
        span * times
    }
}

/// `span`, `times` times, held at the longest span that exists.
pub fn scale(span: Duration, times: u32) -> (product: Duration)
    ensures
        product == scaled(span as int, times as int),
{
    match span.checked_mul(times as u128) {
        Some(product) => product,
        None => u128::MAX,
    }
}

// ---------------------------------------------------------------------------
// Laws.
// ---------------------------------------------------------------------------

/// The last point of time that a span from `started` on covers, if that point
/// exists, and the last one that does otherwise.
pub open spec fn span_end(started: Instant, timeout: Duration) -> int {
    if started + timeout <= u128::MAX {
        started + timeout
    } else {
        u128::MAX as int
    }
}

/// Whether a wait of `span` that begins at `now` ends at `end`, or at once if
/// that has passed.
pub open spec fn lasts_until(span: int, now: int, end: int) -> bool {
    if now <= end {
        now + span == end
    } else {
        span == 0
    }
}

/// A wait of the span until a later point, taken from the point that it begins
/// at, lasts until there.
pub proof fn waits_last_until_their_end(started: Instant, timeout: Duration, now: Instant)
    ensures
        point_after(started as int, timeout as int) == span_end(started, timeout),
        lasts_until(
            span_since(span_end(started, timeout), now as int),
            now as int,
            span_end(started, timeout),
        ),
{
}

} // verus!
