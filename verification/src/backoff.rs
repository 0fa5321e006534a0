//! Reconnection backoff policy: bounded exponential delay, capped at thirty
//! seconds.

use vstd::prelude::*;

verus! {

/// The delay in seconds before reconnection attempt `attempt` (0-indexed):
/// 2, 4, 8, 16, then 30 for every later attempt.
pub open spec fn spec_reconnect_delay(attempt: nat) -> nat {
    if attempt == 0 {
        2
    } else if attempt == 1 {
        4
    } else if attempt == 2 {
        8
    } else if attempt == 3 {
        16
    } else {
        30
    }
}

/// Seconds to wait before reconnection attempt `attempt`.
pub fn reconnect_delay(attempt: u32) -> (seconds: u64)
    ensures
        seconds == spec_reconnect_delay(attempt as nat),
{
    if attempt == 0 {
        2
    } else if attempt == 1 {
        4
    } else if attempt == 2 {
        8
    } else if attempt == 3 {
        16
    } else {
        30
    }
}

/// The backoff schedule never decreases and never exceeds its cap.
pub proof fn lemma_backoff_monotonic_cap(a: nat, b: nat)
    requires
        a <= b,
    ensures
        spec_reconnect_delay(a) <= spec_reconnect_delay(b),
        spec_reconnect_delay(b) <= 30,
{
}

} // verus!
