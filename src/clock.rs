use vstd::prelude::*;

verus! {

#[verifier::external_type_specification]
#[verifier::external_body]
pub struct ExInstant(std::time::Instant);

/// Relies on `Instant::now`: reads the monotonic clock. What it reads depends on
/// the time, so nothing is stated of it.
pub assume_specification[ std::time::Instant::now ]() -> std::time::Instant;

/// Relies on `Instant::elapsed`: the time since the instant was taken (zero, not
/// a panic, if the clock appears to have gone back). Nothing is stated of it.
pub assume_specification[ std::time::Instant::elapsed ](self_: &std::time::Instant) -> core::time::Duration;

/// Relies on `Duration::as_nanos`: the whole number of nanoseconds in a duration.
/// Durations are opaque here, so nothing is stated of it.
pub assume_specification[ core::time::Duration::as_nanos ](self_: &core::time::Duration) -> u128;

/// The nanoseconds since `start`, capped at `u64::MAX`.
pub fn nanos_since(start: &std::time::Instant) -> u64 {
    let d = start.elapsed();
    let n = d.as_nanos();
    if n > u64::MAX as u128 {
        u64::MAX
    } else {
        n as u64
    }
}

} // verus!
