//! Frame durations and the wait that precedes each emission.

use vstd::prelude::*;

verus! {

/// Nanoseconds in one millisecond.
pub const NANOS_PER_MILLI: u64 = 1_000_000;

/// The display time of a frame in whole milliseconds, from the delay that the
/// source records as a fraction of milliseconds.
pub open spec fn duration_of(numer: u32, denom: u32) -> int
    recommends
        denom != 0,
{
    numer as int / denom as int
}

/// How long to wait, in nanoseconds, before a frame of `duration_ms` is shown
/// when `elapsed_nanos` have passed since the previous emission.
pub open spec fn wait_of(duration_ms: u32, elapsed_nanos: u128) -> int {
    if elapsed_nanos >= duration_ms * NANOS_PER_MILLI {
        0
    } else {
        duration_ms * NANOS_PER_MILLI - elapsed_nanos
    }
}

/// Computes a frame's display time in milliseconds, rounding the recorded
/// fraction down.
pub fn frame_duration_ms(numer: u32, denom: u32) -> (millis: u32)
    requires
        denom != 0,
    ensures
        millis == duration_of(numer, denom),
{
    numer / denom
}

/// Computes the wait before the next emission: the frame's display time less
/// the time already spent since the previous emission, and zero where more
/// time than that has passed.
pub fn remaining_wait(duration_ms: u32, elapsed_nanos: u128) -> (nanos: u64)
    ensures
        nanos == wait_of(duration_ms, elapsed_nanos),
        nanos <= duration_ms * NANOS_PER_MILLI,
{
    let wide: u64 = duration_ms as u64;
    assert(wide * NANOS_PER_MILLI <= u64::MAX) by (nonlinear_arith)
        requires
            wide <= u32::MAX,
            NANOS_PER_MILLI == 1_000_000,
    ;
    let budget: u64 = wide * NANOS_PER_MILLI;
    if elapsed_nanos >= budget as u128 {
        0
    } else {
        budget - (elapsed_nanos as u64)
    }
}

} // verus!
