//! Durations, in nanoseconds.

use vstd::prelude::*;

verus! {

/// How long to wait between two looks at a process: 20 milliseconds.
pub const POLL: u128 = 20_000_000;

/// The shorter of two durations.
pub open spec fn shorter_of(a: u128, b: u128) -> u128 {
    if a <= b {
        a
    } else {
        b
    }
}

/// The shorter of two durations.
pub fn shorter(a: u128, b: u128) -> (duration: u128)
    ensures
        duration == shorter_of(a, b),
        duration <= a,
        duration <= b,
        duration == a || duration == b,
{
    if a <= b {
        a
    } else {
        b
    }
}

/// The shorter of two durations is one of them, and no longer than either.
pub proof fn law_shorter_is_the_least(a: u128, b: u128)
    ensures
        shorter_of(a, b) <= a,
        shorter_of(a, b) <= b,
        shorter_of(a, b) == a || shorter_of(a, b) == b,
{
}

} // verus!
