//! Time as plain milliseconds: a monotonic clock, and the wall clock.

use std::time::Duration;
use std::time::Instant;
use std::time::SystemTime;
use std::time::SystemTimeError;
use vstd::prelude::*;

verus! {

/// `std::time::Instant`, an opaque point on the monotonic clock.
#[verifier::external_type_specification]
#[verifier::external_body]
pub struct ExInstant(Instant);

/// `Instant::now` reads the monotonic clock; nothing is claimed of the
/// reading.
pub assume_specification[ Instant::now ]() -> (now: Instant);

/// `Instant::elapsed` measures the time since the instant was taken; nothing
/// is claimed of the span.
pub assume_specification[ Instant::elapsed ](start: &Instant) -> (span: Duration);

/// `Duration::as_millis` gives the whole milliseconds in the span; nothing is
/// claimed of the number.
pub assume_specification[ Duration::as_millis ](span: &Duration) -> (millis: u128);

/// `std::time::SystemTime`, an opaque point on the wall clock.
#[verifier::external_type_specification]
#[verifier::external_body]
pub struct ExSystemTime(SystemTime);

/// `std::time::SystemTimeError`, the error of a span that would be negative.
#[verifier::external_type_specification]
#[verifier::external_body]
pub struct ExSystemTimeError(SystemTimeError);

/// `SystemTime::now` reads the wall clock; nothing is claimed of the reading.
pub assume_specification[ SystemTime::now ]() -> (now: SystemTime);

/// `SystemTime::duration_since` measures the time from `earlier` to `later`,
/// or fails where `earlier` is the later one; nothing is claimed of the
/// outcome.
pub assume_specification[ SystemTime::duration_since ](
    later: &SystemTime,
    earlier: SystemTime,
) -> (span: Result<Duration, SystemTimeError>);

/// The start of the Unix epoch, `std::time::UNIX_EPOCH`.
#[verifier::external_body]
fn unix_epoch() -> (epoch: SystemTime) {
    std::time::UNIX_EPOCH
}

/// Milliseconds of the wall clock since the Unix epoch: 0 for a clock set
/// before the epoch, `u64::MAX` once the count no longer fits.
pub fn wall_clock_ms() -> (now: u64) {
    let now = SystemTime::now();
    match now.duration_since(unix_epoch()) {
        Ok(span) => clamp_millis(span.as_millis()),
        Err(_) => 0,
    }
}

/// Milliseconds of the wall clock since the Unix epoch as a signed count:
/// 0 for a clock set before the epoch, `i64::MAX` once the count no longer
/// fits.
pub fn epoch_ms() -> (now: i64)
    ensures
        exists|reading: u64| now == #[trigger] spec_signed_millis(reading),
        0 <= now,
{
    let reading = wall_clock_ms();
    signed_millis(reading)
}

/// A monotonic clock that counts milliseconds from the moment it was started.
pub struct Clock {
    origin: Instant,
}

impl Clock {
    /// Starts a clock at the present moment.
    pub fn start() -> (clock: Clock) {
        Clock { origin: Instant::now() }
    }

    /// Milliseconds since the clock was started, held at `u64::MAX` once the
    /// count no longer fits.
    pub fn now_ms(&self) -> (now: u64) {
        let span = self.origin.elapsed();
        clamp_millis(span.as_millis())
    }
}

/// The value a 128-bit millisecond count takes as a `u64`.
pub open spec fn spec_clamp_millis(millis: u128) -> u64 {
    if millis > u64::MAX as u128 {
        u64::MAX
    } else {
        millis as u64
    }
}

/// Narrows a millisecond count to `u64`, saturating at `u64::MAX`.
pub fn clamp_millis(millis: u128) -> (clamped: u64)
    ensures
        clamped == spec_clamp_millis(millis),
{
    if millis > u64::MAX as u128 {
        u64::MAX
    } else {
        millis as u64
    }
}

/// The value a millisecond count takes as an `i64`: the count itself, or
/// `i64::MAX` where it does not fit.
pub open spec fn spec_signed_millis(millis: u64) -> i64 {
    if millis > i64::MAX as u64 {
        i64::MAX
    } else {
        millis as i64
    }
}

/// Narrows a millisecond count to `i64`, saturating at `i64::MAX`.
pub fn signed_millis(millis: u64) -> (signed: i64)
    ensures
        signed == spec_signed_millis(millis),
{
    if millis > i64::MAX as u64 {
        i64::MAX
    } else {
        millis as i64
    }
}

} // verus!
