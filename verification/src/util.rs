//! Timers. Points in time are nanoseconds on one clock that never goes back.
use vstd::prelude::*;

verus! {

/// How many nanoseconds make a second.
pub const NANOS_PER_SEC: u64 = 1_000_000_000;

/// How many whole seconds lie between `started` and `now`.
pub open spec fn seconds_between(started: nat, now: nat) -> nat {
    if started <= now {
        ((now - started) / NANOS_PER_SEC as int) as nat
    } else {
        0
    }
}

/// Whether a timer set to `run_time` seconds has run out. One set to 0 never does.
pub open spec fn expired(started: nat, run_time: nat, now: nat) -> bool {
    run_time > 0 && seconds_between(started, now) >= run_time
}

/// How many whole seconds have passed from `started` to `now`.
pub fn elapsed_seconds(started: u64, now: u64) -> (seconds: u64)
    ensures
        seconds == seconds_between(started as nat, now as nat),
{
    if started <= now {
        (now - started) / NANOS_PER_SEC
    } else {
        0
    }
}

/// Whether a timer that was started at `started` and set to `run_time` seconds has run out.
pub fn timer_expired(started: u64, run_time: usize, now: u64) -> (over: bool)
    ensures
        over == expired(started as nat, run_time as nat, now as nat),
        over <==> run_time > 0 && now >= started + run_time * 1_000_000_000,
{
    run_time > 0 && elapsed_seconds(started, now) >= run_time as u64
}

} // verus!
