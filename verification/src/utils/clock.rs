//! Clock and duration access.
//!
//! Durations are observed through their length in nanoseconds; points in time
//! come from the system clocks and nothing is stated of their values.

use std::time::{Duration, Instant, SystemTime};
use vstd::prelude::*;

verus! {

#[verifier::external_type_specification]
#[verifier::external_body]
pub struct ExInstant(Instant);

#[verifier::external_type_specification]
#[verifier::external_body]
pub struct ExSystemTime(SystemTime);

/// `Duration` is `Copy`; its `clone` returns the same duration.
pub assume_specification[ <Duration as Clone>::clone ](d: &Duration) -> (r: Duration)
    ensures
        r == *d,
;

/// `Instant` is `Copy`; its `clone` returns the same instant.
pub assume_specification[ <Instant as Clone>::clone ](i: &Instant) -> (r: Instant)
    ensures
        r == *i,
;

/// `SystemTime` is `Copy`; its `clone` returns the same time.
pub assume_specification[ <SystemTime as Clone>::clone ](t: &SystemTime) -> (r: SystemTime)
    ensures
        r == *t,
;

/// Length of a duration in nanoseconds (what `Duration::as_nanos` returns).
pub uninterp spec fn duration_nanos(d: Duration) -> u128;

/// `Duration::as_nanos`: the total number of nanoseconds in `d`.
#[verifier::external_body]
pub(crate) fn duration_as_nanos(d: Duration) -> (r: u128)
    ensures
        r == duration_nanos(d),
{
    d.as_nanos()
}

/// `Duration::from_secs`: a duration of `secs` whole seconds.
#[verifier::external_body]
pub(crate) fn duration_from_secs(secs: u64) -> (d: Duration)
    ensures
        duration_nanos(d) == secs * 1_000_000_000,
{
    Duration::from_secs(secs)
}

/// `Duration::from_millis`: a duration of `millis` milliseconds.
#[verifier::external_body]
pub(crate) fn duration_from_millis(millis: u64) -> (d: Duration)
    ensures
        duration_nanos(d) == millis * 1_000_000,
{
    Duration::from_millis(millis)
}

/// `Instant::now`: the current reading of the monotonic clock. Nothing is
/// stated of the value, which depends on when the call is made.
#[verifier::external_body]
pub(crate) fn instant_now() -> Instant {
    Instant::now()
}

/// `Instant::elapsed`: the time passed since `i`. Nothing is stated of the
/// value, which depends on when the call is made.
#[verifier::external_body]
pub(crate) fn instant_elapsed(i: &Instant) -> Duration {
    i.elapsed()
}

/// `Instant::checked_sub`: the instant `d` before `i`, when the clock can
/// represent it. Nothing is stated of the value, which depends on the clock.
#[verifier::external_body]
pub(crate) fn instant_checked_sub(i: &Instant, d: Duration) -> Option<Instant> {
    i.checked_sub(d)
}

/// `SystemTime::now`: the current wall-clock time. Nothing is stated of the
/// value, which depends on when the call is made.
#[verifier::external_body]
pub(crate) fn system_time_now() -> SystemTime {
    SystemTime::now()
}

/// `UNIX_EPOCH`: the start of 1970, UTC. Moving it forward by nothing with
/// `checked_add` gives it back, so it is what `epoch_plus` names at zero.
#[verifier::external_body]
pub(crate) fn unix_epoch() -> (r: SystemTime)
    ensures
        epoch_plus(0) == Some(r),
{
    std::time::UNIX_EPOCH
}

/// `Duration::new`: `secs` seconds and `nanos` nanoseconds. It panics when
/// the nanoseconds carry the seconds past `u64::MAX`, so that is left out.
#[verifier::external_body]
pub(crate) fn duration_new(secs: u64, nanos: u32) -> (d: Duration)
    requires
        secs + nanos / 1_000_000_000 <= u64::MAX,
    ensures
        duration_nanos(d) == secs * 1_000_000_000 + nanos,
{
    Duration::new(secs, nanos)
}

/// The time `nanos` nanoseconds after the Unix epoch, as `SystemTime`'s
/// `checked_add` on `UNIX_EPOCH` gives it (nothing when the clock cannot
/// represent it).
pub uninterp spec fn epoch_plus(nanos: u128) -> Option<SystemTime>;

/// `UNIX_EPOCH.checked_add(d)`: the epoch moved forward by `d`, when the
/// system clock can represent it. The result depends on `d` alone, and is
/// named by `epoch_plus`.
#[verifier::external_body]
pub(crate) fn epoch_checked_add(d: Duration) -> (r: Option<SystemTime>)
    ensures
        r == epoch_plus(duration_nanos(d)),
{
    std::time::UNIX_EPOCH.checked_add(d)
}

/// How many nanoseconds after the Unix epoch `t` lies, as `SystemTime`'s
/// `duration_since(UNIX_EPOCH)` gives it (nothing for a time before the
/// epoch).
pub uninterp spec fn epoch_offset(t: SystemTime) -> Option<u128>;

/// `t.duration_since(UNIX_EPOCH)`, with the error dropped: how long after
/// the epoch `t` is, when it is not before it. The result depends on `t`
/// alone, and is named by `epoch_offset`.
#[verifier::external_body]
pub(crate) fn since_epoch(t: SystemTime) -> (r: Option<Duration>)
    ensures
        match r {
            Some(d) => epoch_offset(t) == Some(duration_nanos(d)),
            None => epoch_offset(t) is None,
        },
{
    t.duration_since(std::time::UNIX_EPOCH).ok()
}

/// Whether a span of `elapsed` is longer than `ttl`.
pub fn exceeds(elapsed: Duration, ttl: Duration) -> (r: bool)
    ensures
        r == (duration_nanos(elapsed) > duration_nanos(ttl)),
{
    duration_as_nanos(elapsed) > duration_as_nanos(ttl)
}

} // verus!
