//! A monotonic clock, in nanoseconds, for the ageing of table entries.
use vstd::prelude::*;

verus! {

#[verifier::external_type_specification]
#[verifier::external_body]
pub struct ExInstant(std::time::Instant);

/// The current instant of the monotonic clock.
///
/// Trusted: calls `std::time::Instant::now`. Nothing is promised of the result: it is
/// the time.
#[verifier::external_body]
fn instant_now() -> std::time::Instant {
    std::time::Instant::now()
}

/// The time elapsed on the monotonic clock since `since`.
///
/// Trusted: calls `std::time::Instant::elapsed`. Nothing is promised of the result: it
/// is the time.
#[verifier::external_body]
fn elapsed_since(since: &std::time::Instant) -> std::time::Duration {
    since.elapsed()
}

/// The whole nanoseconds of a duration.
///
/// Trusted: calls `std::time::Duration::as_nanos`; the `u128` it gives is taken as a
/// `u64`, which holds any duration shorter than 584 years. Nothing is promised of the
/// result.
#[verifier::external_body]
fn duration_nanos(d: &std::time::Duration) -> u64 {
    d.as_nanos() as u64
}

/// A monotonic clock that counts nanoseconds from the moment it was started.
#[derive(Debug)]
pub struct Clock {
    started: std::time::Instant,
}

impl Clock {
    /// A clock started now.
    pub(crate) fn start() -> Clock {
        Clock { started: instant_now() }
    }

    /// Nanoseconds since the clock was started.
    pub(crate) fn now_nanos(&self) -> u64 {
        let d = elapsed_since(&self.started);
        duration_nanos(&d)
    }
}

/// How long ago, in nanoseconds, something happened at `then`, seen at `now`
/// (zero if the clock went back).
pub open spec fn age(now: u64, then: u64) -> u64 {
    if now >= then {
        (now - then) as u64
    } else {
        0
    }
}

/// How long ago something happened at `then`, seen at `now`.
pub fn age_of(now: u64, then: u64) -> (r: u64)
    ensures
        r == age(now, then),
{
    if now >= then {
        now - then
    } else {
        0
    }
}

} // verus!
