//! Instants, day counts and the legacy timestamp encoding of due values.

use vstd::prelude::*;

verus! {

/// Seconds in a day.
pub const SECS_PER_DAY: i64 = 86_400;

/// A point in time, in seconds since the Unix epoch.
#[derive(Clone, Copy, Debug, PartialEq, Eq, Structural)]
pub struct TimestampSecs(pub i64);

/// A point in time, in milliseconds since the Unix epoch.
#[derive(Clone, Copy, Debug, PartialEq, Eq, Structural)]
pub struct TimestampMillis(pub i64);

/// The scheduler's notion of "today", resolved once by the caller's clock.
#[derive(Clone, Copy, Debug, PartialEq, Eq, Structural)]
pub struct SchedTimingToday {
    /// Days elapsed since the collection's epoch.
    pub days_elapsed: u32,
    /// The instant at which the next day starts.
    pub next_day_at: TimestampSecs,
}

/// Whole days from `earlier` to `later`; zero when `later` is not after `earlier`.
pub open spec fn elapsed_days(later: int, earlier: int) -> int {
    if later <= earlier {
        0
    } else {
        (later - earlier) / (SECS_PER_DAY as int)
    }
}

/// Quotient rounded toward zero, for a positive divisor.
pub open spec fn div_toward_zero(a: int, b: int) -> int {
    if a >= 0 {
        a / b
    } else {
        -((-a) / b)
    }
}

/// Whether a due value is large enough that it must be a raw epoch
/// timestamp in seconds rather than a day count.
pub open spec fn spec_is_unix_epoch_timestamp(due: i32) -> bool {
    due > 1_000_000_000
}

/// Tells a due value that is a raw timestamp from one that is a day count.
/// Day counts stay far below a thousand million; timestamps of cards that
/// are still in use lie above it.
#[verifier::when_used_as_spec(spec_is_unix_epoch_timestamp)]
pub fn is_unix_epoch_timestamp(due: i32) -> (r: bool)
    ensures
        r == spec_is_unix_epoch_timestamp(due),
{
    due > 1_000_000_000
}

impl TimestampSecs {
    /// Whole days elapsed since `other`, never negative.
    pub fn elapsed_days_since(self, other: TimestampSecs) -> (days: u64)
        ensures
            days == elapsed_days(self.0 as int, other.0 as int),
    {
        let diff: i128 = self.0 as i128 - other.0 as i128;
        if diff <= 0 {
            0
        } else {
            (diff / 86_400) as u64
        }
    }
}

} // verus!
