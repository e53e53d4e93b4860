//! The fixed-cadence scheduler: computes how long to sleep until the next
//! tick and where the wake time moves, catching up without backlog replay
//! when a tick overruns the interval.

use vstd::prelude::*;

verus! {

/// How long to sleep before the next tick: until the scheduled wake time,
/// or not at all when that time has already passed.
pub open spec fn sleep_for_spec(now_ms: u64, next_wake_ms: u64) -> int {
    if now_ms < next_wake_ms {
        next_wake_ms - now_ms
    } else {
        0
    }
}

/// The wake time after this tick: one interval past the scheduled wake
/// when that is still ahead, or resynchronized to one interval past `now`
/// when the tick overran it.
pub open spec fn next_wake_after(now_ms: u64, next_wake_ms: u64, interval_ms: u64) -> int {
    if now_ms < next_wake_ms {
        next_wake_ms + interval_ms
    } else {
        now_ms + interval_ms
    }
}

/// Computes the sleep duration for this iteration and the next scheduled
/// wake time.  When the tick overran the interval, the schedule is reset
/// to `now + interval` instead of replaying missed ticks, so a slow
/// iteration never produces a zero-sleep spin.
pub fn next_schedule(now_ms: u64, next_wake_ms: u64, interval_ms: u64) -> (r: (u64, u64))
    requires
        now_ms + interval_ms <= u64::MAX,
        next_wake_ms + interval_ms <= u64::MAX,
    ensures
        r.0 == sleep_for_spec(now_ms, next_wake_ms),
        r.1 == next_wake_after(now_ms, next_wake_ms, interval_ms),
        now_ms >= next_wake_ms ==> r.0 == 0 && r.1 == now_ms + interval_ms,
        interval_ms > 0 ==> r.1 > now_ms,
{
    if now_ms < next_wake_ms {
        (next_wake_ms - now_ms, next_wake_ms + interval_ms)
    } else {
        (0, now_ms + interval_ms)
    }
}

} // verus!
