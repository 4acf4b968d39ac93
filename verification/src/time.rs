use vstd::prelude::*;

verus! {

/// Microseconds in a second.
pub const MICROS_PER_SEC: i64 = 1_000_000;

/// The latest time (microseconds since the epoch) at which the rules still
/// schedule events: five minutes before the end of the timestamp range.
pub const LATEST_TIME: i64 = 9_223_372_036_554_775_807;

/// `now` plus `secs` seconds, in microseconds since the epoch.
pub open spec fn plus_secs(now: i64, secs: int) -> int {
    now + secs * MICROS_PER_SEC
}

/// Adds whole seconds to a timestamp.
pub fn timestamp_plus_secs(now: i64, secs: u64) -> (r: i64)
    requires
        secs <= 300,
        now <= LATEST_TIME,
    ensures
        r == plus_secs(now, secs as int),
{
    now + (secs as i64) * MICROS_PER_SEC
}

} // verus!
