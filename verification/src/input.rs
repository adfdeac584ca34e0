//! The pace of the input loop: how long to wait for a key, and when a tick is
//! due. Times are in nanoseconds.

use vstd::prelude::*;

verus! {

/// The time between two ticks, in milliseconds.
pub const TICK_RATE_MILLIS: u64 = 200;

/// How long to wait for a key: what is left of the tick, and no time at all
/// once the tick is over.
pub open spec fn time_left(tick_rate: u128, elapsed: u128) -> u128 {
    if elapsed <= tick_rate {
        (tick_rate - elapsed) as u128
    } else {
        0
    }
}

/// How long to wait for a key, `elapsed` after the last tick.
pub fn poll_timeout(tick_rate: u128, elapsed: u128) -> (timeout: u128)
    ensures
        timeout == time_left(tick_rate, elapsed),
        timeout <= tick_rate,
{
    match tick_rate.checked_sub(elapsed) {
        Some(left) => left,
        None => 0,
    }
}

/// Whether a tick is due, `elapsed` after the last one.
pub fn tick_due(tick_rate: u128, elapsed: u128) -> (due: bool)
    ensures
        due == (elapsed >= tick_rate),
        due == (time_left(tick_rate, elapsed) == 0),
{
    elapsed >= tick_rate
}

} // verus!
