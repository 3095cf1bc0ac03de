//! The scheduler's arithmetic: how long to wait before the next cycle.

use vstd::prelude::*;

verus! {

/// The shortest wait between two cycles, in seconds.
pub const MIN_WAIT_SECS: u64 = 120;

/// The interval of a cycle that could not load its configuration, in seconds.
pub const FALLBACK_INTERVAL_SECS: u64 = 300;

/// The wait before the next cycle: what is left of the interval, which runs
/// from start to start, but never less than the shortest wait, however long
/// the cycle took.
pub open spec fn wait_secs(interval: int, elapsed: int) -> int {
    if interval - elapsed >= MIN_WAIT_SECS as int {
        interval - elapsed
    } else {
        MIN_WAIT_SECS as int
    }
}

/// The seconds to wait after a cycle that took `elapsed` seconds.
pub fn next_wait(interval: u64, elapsed: u64) -> (wait: u64)
    ensures
        wait == wait_secs(interval as int, elapsed as int),
        wait >= MIN_WAIT_SECS,
{
    let left: u64 = if elapsed <= interval {
        interval - elapsed
    } else {
        0
    };
    if left >= MIN_WAIT_SECS {
        left
    } else {
        MIN_WAIT_SECS
    }
}

/// The wait is never shorter than the floor and never longer than the
/// interval allows: it is the rest of the interval where that is at least the
/// floor, and the floor otherwise, also where the cycle overran its interval.
pub proof fn lemma_wait_is_floored(interval: int, elapsed: int)
    requires
        0 <= interval,
        0 <= elapsed,
    ensures
        wait_secs(interval, elapsed) >= MIN_WAIT_SECS,
        wait_secs(interval, elapsed) >= interval - elapsed,
        wait_secs(interval, elapsed) <= if interval >= MIN_WAIT_SECS {
            interval
        } else {
            MIN_WAIT_SECS as int
        },
        elapsed >= interval ==> wait_secs(interval, elapsed) == MIN_WAIT_SECS,
{
}

} // verus!
