//! Wall-clock time as plain integers.

use vstd::prelude::*;

verus! {

/// A point in time: whole seconds since the Unix epoch and the nanoseconds
/// into that second.
#[derive(Clone, Copy, Debug, PartialEq, Eq, Structural)]
pub struct Timestamp {
    pub secs: i64,
    pub nanos: u32,
}

/// No time that the clock can show is this many seconds away from the Unix
/// epoch.
pub const CLOCK_SPAN: i64 = 9_000_000_000_000;

/// Reads the current UTC time with `chrono::Utc::now`, taking its seconds
/// from `DateTime::timestamp` and its nanoseconds from
/// `DateTime::timestamp_subsec_nanos`. Which time it is is whatever the
/// system clock says. Claimed is only what holds of every `DateTime<Utc>`:
/// it lies between `DateTime::MIN_UTC`, the first day of the year 262144
/// BCE, and `DateTime::MAX_UTC`, the last day of the year 262142 CE, and so
/// less than 264114 years of at most 366 days, which is less than
/// `CLOCK_SPAN` seconds, away from the epoch. `Utc::now` panics where the
/// system clock stands before the Unix epoch.
#[verifier::external_body]
pub(crate) fn now() -> (t: Timestamp)
    ensures
        -CLOCK_SPAN < t.secs < CLOCK_SPAN,
{
    let t = chrono::Utc::now();
    Timestamp { secs: t.timestamp(), nanos: t.timestamp_subsec_nanos() }
}

} // verus!
