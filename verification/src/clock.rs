//! Readings of the wall clock and of the monotonic clock.
use vstd::prelude::*;

verus! {

/// `std::time::Instant`, a reading of the monotonic clock; opaque here.
#[verifier::external_type_specification]
#[verifier::external_body]
pub struct ExInstant(std::time::Instant);

/// The latest second, counted from the Unix epoch, that chrono's
/// `DateTime<Utc>` can hold (`DateTime::<Utc>::MAX_UTC`, the last second of
/// December 31 of the year 262142).
pub const MAX_UTC_TIMESTAMP: i64 = 8_210_266_876_799;

/// The earliest second, counted from the Unix epoch, that chrono's
/// `DateTime<Utc>` can hold (`DateTime::<Utc>::MIN_UTC`, January 1 of the
/// year -262143).
pub const MIN_UTC_TIMESTAMP: i64 = -8_334_601_228_800;

/// `std::time::SystemTime`, a reading of the wall clock; opaque here.
#[verifier::external_type_specification]
#[verifier::external_body]
pub struct ExSystemTime(std::time::SystemTime);

/// A reading of the wall clock, `std::time::SystemTime::now()`.
/// Nothing is stated of it: it depends on the machine.
#[verifier::external_body]
fn system_now() -> std::time::SystemTime {
    std::time::SystemTime::now()
}

/// `t.duration_since(UNIX_EPOCH)` as whole seconds (`Duration::as_secs`)
/// and the nanoseconds past them (`Duration::subsec_nanos`, which std
/// documents as less than one second). `None` when `t` lies before the
/// epoch, the one case where `duration_since` fails. What `t` holds is
/// opaque, so nothing ties the seconds to it.
#[verifier::external_body]
fn since_unix_epoch(t: &std::time::SystemTime) -> (r: Option<(u64, u32)>)
    ensures
        r matches Some((_, nanos)) ==> nanos < 1_000_000_000,
{
    match t.duration_since(std::time::UNIX_EPOCH) {
        Ok(d) => Some((d.as_secs(), d.subsec_nanos())),
        Err(_) => None,
    }
}

/// chrono's `DateTime::from_timestamp(secs, nsecs)` followed by
/// `DateTime::timestamp`. For `nsecs` below one second, `from_timestamp`
/// gives a date exactly when `secs` lies between `MIN_UTC_TIMESTAMP` and
/// `MAX_UTC_TIMESTAMP`. A larger `nsecs` marks a leap second; when chrono
/// accepts one is left unsaid. `timestamp` gives back the `secs` the date was
/// made from.
#[verifier::external_body]
fn utc_timestamp(secs: i64, nsecs: u32) -> (t: Option<i64>)
    ensures
        t is Some ==> t->0 == secs,
        nsecs < 1_000_000_000 ==> (t is Some <==> MIN_UTC_TIMESTAMP <= secs <= MAX_UTC_TIMESTAMP),
{
    let date = chrono::DateTime::from_timestamp(secs, nsecs)?;
    Some(date.timestamp())
}

/// Seconds since the Unix epoch on the wall clock, as chrono's `Utc::now`
/// reads them, or `None` where `Utc::now` would panic: when the clock lies
/// before the epoch or beyond the latest date chrono can hold.
pub(crate) fn unix_time_secs() -> (t: Option<i64>)
    ensures
        t is Some ==> 0 <= t->0 <= MAX_UTC_TIMESTAMP,
{
    let now = system_now();
    match since_unix_epoch(&now) {
        None => None,
        Some((secs, nanos)) => {
            if secs > i64::MAX as u64 {
                None
            } else {
                utc_timestamp(secs as i64, nanos)
            }
        },
    }
}

/// A reading of the monotonic clock, `std::time::Instant::now()`.
/// Nothing is stated of it: it depends on the machine.
#[verifier::external_body]
pub(crate) fn instant_now() -> std::time::Instant {
    std::time::Instant::now()
}

/// Whole nanoseconds from `earlier` to `later`, through
/// `Instant::duration_since`, which saturates at zero when `earlier` is the
/// later one; a span beyond `u64::MAX` nanoseconds reads as `u64::MAX`.
/// Nothing more is stated: the instants are opaque readings of the clock.
#[verifier::external_body]
pub(crate) fn nanos_between(earlier: &std::time::Instant, later: &std::time::Instant) -> u64 {
    u64::try_from(later.duration_since(*earlier).as_nanos()).unwrap_or(u64::MAX)
}

} // verus!
