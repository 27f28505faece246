//! The clocks: the monotonic one the caret blinks by, and the wall clock the
//! hint rotation is seeded from.
use vstd::prelude::*;
use std::time::{Duration, Instant, SystemTime, UNIX_EPOCH};

verus! {

/// `std::time::Instant`, a reading of the monotonic clock. Verus sees
/// nothing inside it; the library only carries it as a clock's origin.
#[verifier::external_type_specification]
#[verifier::external_body]
pub struct ExInstant(Instant);

/// `std::time::SystemTime`, a reading of the wall clock. Verus sees nothing
/// inside it.
#[verifier::external_type_specification]
#[verifier::external_body]
pub struct ExSystemTime(SystemTime);

/// `Instant::now`. Nothing is promised of the reading: it is the time.
#[verifier::external_body]
pub(crate) fn monotonic_now() -> Instant {
    Instant::now()
}

/// `Instant::elapsed`: how long ago `origin` was. Nothing is promised of the
/// value: it is the time.
#[verifier::external_body]
pub(crate) fn elapsed_since(origin: &Instant) -> Duration {
    origin.elapsed()
}

/// `Duration::as_millis`: the whole milliseconds in `d`.
#[verifier::external_body]
pub(crate) fn whole_millis(d: &Duration) -> u128 {
    d.as_millis()
}

/// `SystemTime::now`. Nothing is promised of the reading: it is the time.
#[verifier::external_body]
pub(crate) fn wall_now() -> SystemTime {
    SystemTime::now()
}

/// `SystemTime::duration_since(UNIX_EPOCH)`: how long after the epoch `t`
/// is, or `None` for a reading before it (std's error, dropped).
#[verifier::external_body]
pub(crate) fn since_epoch(t: &SystemTime) -> Option<Duration> {
    t.duration_since(UNIX_EPOCH).ok()
}

/// `Duration::as_nanos`: the whole nanoseconds in `d`.
#[verifier::external_body]
pub(crate) fn whole_nanos(d: &Duration) -> u128 {
    d.as_nanos()
}

/// Whole milliseconds elapsed since `origin` on the monotonic clock,
/// truncated to `u64`.
pub(crate) fn millis_since(origin: &Instant) -> u64 {
    let d = elapsed_since(origin);
    whole_millis(&d) as u64
}

/// Nanoseconds since the Unix epoch on the wall clock, truncated to `usize`,
/// or `None` when the clock reads before the epoch.
pub(crate) fn wall_nanos() -> Option<usize> {
    let t = wall_now();
    match since_epoch(&t) {
        Some(d) => Some(whole_nanos(&d) as usize),
        None => None,
    }
}

} // verus!
