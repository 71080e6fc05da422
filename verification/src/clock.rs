//! The two clocks the engine reads: a monotonic one for the grace
//! countdowns and the wall clock for the stamps on notifications.

use std::time::{Duration, Instant, SystemTime, UNIX_EPOCH};
use vstd::prelude::*;

verus! {

#[verifier::external_type_specification]
#[verifier::external_body]
pub struct ExInstant(Instant);

/// `std::time::Instant::now`: some reading of the monotonic clock. Nothing
/// is claimed of it.
#[verifier::external_body]
fn instant_now() -> Instant {
    Instant::now()
}

/// `std::time::Instant::elapsed`: the time gone by since `origin` was read.
/// It depends on the clock, so nothing is claimed of it.
#[verifier::external_body]
fn instant_elapsed(origin: &Instant) -> Duration {
    origin.elapsed()
}

/// `std::time::Duration::as_millis`: the whole milliseconds in `span`.
/// The span is opaque to the contracts, so nothing is claimed of the count.
#[verifier::external_body]
fn duration_millis(span: &Duration) -> u128 {
    span.as_millis()
}

#[verifier::external_type_specification]
#[verifier::external_body]
pub struct ExSystemTime(SystemTime);

/// `std::time::SystemTime::now`: some reading of the wall clock. Nothing is
/// claimed of it.
#[verifier::external_body]
fn system_now() -> SystemTime {
    SystemTime::now()
}

/// `std::time::SystemTime::duration_since` against `UNIX_EPOCH`: the span
/// between `instant` and the epoch, `Ok` where the instant is not before
/// the epoch and `Err` where it is. The instant is opaque to the contracts,
/// so nothing is claimed of the span.
#[verifier::external_body]
fn since_epoch(instant: &SystemTime) -> Result<Duration, Duration> {
    match instant.duration_since(UNIX_EPOCH) {
        Ok(span) => Ok(span),
        Err(error) => Err(error.duration()),
    }
}

/// `std::time::Duration::as_secs`: the whole seconds in `span`.
#[verifier::external_body]
fn duration_secs(span: &Duration) -> u64 {
    span.as_secs()
}

/// `std::time::Duration::subsec_nanos`: the part of `span` below one
/// second, in nanoseconds. std documents that it is less than one billion.
#[verifier::external_body]
fn duration_subsec_nanos(span: &Duration) -> (nanos: u32)
    ensures
        nanos < 1_000_000_000,
{
    span.subsec_nanos()
}

/// Seconds on either side of the epoch, some quarter of a million years,
/// within which chrono represents every instant.
pub const REPRESENTABLE_SECS: i64 = 8_000_000_000_000;

/// Whether the instant `secs` seconds and `nanos` nanoseconds from the
/// epoch lies in the span that chrono is known to represent.
pub open spec fn representable(secs: int, nanos: int) -> bool {
    0 <= nanos < 1_000_000_000 && -REPRESENTABLE_SECS <= secs <= REPRESENTABLE_SECS
}

/// `chrono::DateTime::from_timestamp` followed by
/// `DateTime::timestamp_millis`: the milliseconds since the Unix epoch of
/// the instant `secs` seconds and `nanos` nanoseconds after it, where
/// chrono can represent that instant, and `None` where it cannot. chrono
/// represents the years from 262143 BCE to 262142 CE, so there is a count
/// for every instant within [`REPRESENTABLE_SECS`] of the epoch whose
/// nanoseconds stay below one second. The count is claimed wherever there
/// is one.
#[verifier::external_body]
fn timestamp_millis(secs: i64, nanos: u32) -> (millis: Option<i64>)
    ensures
        representable(secs as int, nanos as int) ==> millis is Some,
        millis matches Some(count) ==> count == secs * 1000 + nanos / 1_000_000,
{
    match chrono::DateTime::from_timestamp(secs, nanos) {
        Some(instant) => Some(instant.timestamp_millis()),
        None => None,
    }
}

/// The whole seconds, counted from the epoch, of the instant that lies
/// `secs` seconds and `nanos` nanoseconds after the epoch, or before it.
/// Seconds are counted downwards, so that the nanoseconds always count up.
pub open spec fn epoch_secs(after: bool, secs: u64, nanos: u32) -> int {
    if after {
        secs as int
    } else if nanos == 0 {
        -(secs as int)
    } else {
        -(secs as int) - 1
    }
}

/// The nanoseconds that go with [`epoch_secs`].
pub open spec fn epoch_nanos(after: bool, nanos: u32) -> int {
    if after || nanos == 0 {
        nanos as int
    } else {
        1_000_000_000 - nanos
    }
}

/// Whether `secs` seconds and `nanos` nanoseconds from the epoch name an
/// instant that can be counted: the nanoseconds stay below one second and
/// the seconds from the epoch fit.
pub open spec fn countable(after: bool, secs: u64, nanos: u32) -> bool {
    nanos < 1_000_000_000 && i64::MIN <= epoch_secs(after, secs, nanos) <= i64::MAX
}

/// The instant that lies `secs` seconds and `nanos` nanoseconds after the
/// epoch, or before it, as seconds from the epoch and nanoseconds on top of
/// them; `None` where it cannot be counted.
pub fn epoch_offset(after: bool, secs: u64, nanos: u32) -> (offset: Option<(i64, u32)>)
    ensures
        offset is Some <==> countable(after, secs, nanos),
        offset matches Some(at) ==> at.0 == epoch_secs(after, secs, nanos) && at.1 == epoch_nanos(
            after,
            nanos,
        ),
{
    if nanos >= 1_000_000_000 {
        return None;
    }
    if secs > i64::MAX as u64 {
        // One second beyond the range is still in it when counted downwards.
        if !after && nanos == 0 && secs == i64::MAX as u64 + 1 {
            return Some((i64::MIN, 0));
        }
        return None;
    }
    let whole = secs as i64;
    if after {
        Some((whole, nanos))
    } else if nanos == 0 {
        Some((-whole, 0))
    } else {
        Some((-whole - 1, 1_000_000_000 - nanos))
    }
}

/// The stamp of an instant that cannot be represented: the end of the range
/// on its side of the epoch.
pub open spec fn limit(after: bool) -> i64 {
    if after {
        i64::MAX
    } else {
        i64::MIN
    }
}

/// The stamp for an instant of which `millis` is the count since the epoch,
/// if there is one: the count itself, or the end of the range on the side
/// of the epoch on which the instant lies.
pub fn stamp(after: bool, millis: Option<i64>) -> (time: i64)
    ensures
        millis matches Some(count) ==> time == count,
        millis is None ==> time == limit(after),
{
    match millis {
        Some(count) => count,
        None => if after {
            i64::MAX
        } else {
            i64::MIN
        },
    }
}

/// The count of milliseconds since the epoch of the instant that lies
/// `secs` seconds and `nanos` nanoseconds after the epoch, or before it.
pub open spec fn epoch_count(after: bool, secs: u64, nanos: u32) -> int {
    epoch_secs(after, secs, nanos) * 1000 + epoch_nanos(after, nanos) / 1_000_000
}

/// The stamp, in milliseconds since the Unix epoch, of the instant that
/// lies `secs` seconds and `nanos` nanoseconds after the epoch, or before
/// it. Within [`REPRESENTABLE_SECS`] of the epoch it is the count of
/// milliseconds. An instant that cannot be counted is stamped with the end
/// of the range on its side of the epoch, and so is one further out that
/// chrono does not represent.
pub fn epoch_millis(after: bool, secs: u64, nanos: u32) -> (time: i64)
    ensures
        representable(epoch_secs(after, secs, nanos), nanos as int) ==> time == epoch_count(
            after,
            secs,
            nanos,
        ),
        countable(after, secs, nanos) ==> time == epoch_count(after, secs, nanos) || time
            == limit(after),
        !countable(after, secs, nanos) ==> time == limit(after),
{
    match epoch_offset(after, secs, nanos) {
        Some((whole, part)) => {
            assert(representable(epoch_secs(after, secs, nanos), nanos as int) ==> representable(
                whole as int,
                part as int,
            ));
            stamp(after, timestamp_millis(whole, part))
        },
        None => stamp(after, None),
    }
}

/// The wall clock in milliseconds since the Unix epoch. It depends on the
/// clock of the machine, so nothing is claimed of the reading.
pub(crate) fn wall_millis() -> i64 {
    let instant = system_now();
    match since_epoch(&instant) {
        Ok(span) => epoch_millis(true, duration_secs(&span), duration_subsec_nanos(&span)),
        Err(span) => epoch_millis(false, duration_secs(&span), duration_subsec_nanos(&span)),
    }
}

/// A monotonic clock that counts milliseconds from the moment it was made.
pub struct Clock {
    origin: Instant,
}

impl Clock {
    /// A clock that starts counting now.
    pub fn new() -> Clock {
        Clock { origin: instant_now() }
    }

    /// Milliseconds since the clock was made; `u64::MAX` once the count no
    /// longer fits.
    pub fn millis(&self) -> u64 {
        let span = instant_elapsed(&self.origin);
        clamp_millis(duration_millis(&span))
    }
}

/// The count `millis` as a `u64`, held at `u64::MAX` where it does not fit.
pub fn clamp_millis(millis: u128) -> (clamped: u64)
    ensures
        millis <= u64::MAX ==> clamped == millis,
        millis > u64::MAX ==> clamped == u64::MAX,
{
    if millis > u64::MAX as u128 {
        u64::MAX
    } else {
        millis as u64
    }
}

} // verus!
