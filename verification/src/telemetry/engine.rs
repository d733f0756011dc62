use vstd::prelude::*;

verus! {

/// Shortest period in milliseconds between two telemetry samples.
pub const MIN_REFRESH_INTERVAL_MS: u64 = 500;

/// The sampling period for a configured refresh interval: the configured one,
/// but never below `MIN_REFRESH_INTERVAL_MS`.
pub fn poll_interval_ms(refresh_interval_ms: u64) -> (r: u64)
    ensures
        r == if refresh_interval_ms < MIN_REFRESH_INTERVAL_MS {
            MIN_REFRESH_INTERVAL_MS
        } else {
            refresh_interval_ms
        },
{
    if refresh_interval_ms < MIN_REFRESH_INTERVAL_MS {
        MIN_REFRESH_INTERVAL_MS
    } else {
        refresh_interval_ms
    }
}

/// How long, in nanoseconds, the sampler sleeps after a round that took
/// `elapsed_nanos`: the rest of the period, or nothing when the round took
/// the whole period or longer.
pub fn sleep_after_nanos(elapsed_nanos: u128, interval_ms: u64) -> (r: u128)
    ensures
        r == if elapsed_nanos < interval_ms as int * 1_000_000 {
            interval_ms as int * 1_000_000 - elapsed_nanos
        } else {
            0
        },
{
    let target = interval_ms as u128 * 1_000_000;
    if elapsed_nanos < target {
        target - elapsed_nanos
    } else {
        0
    }
}

} // verus!
