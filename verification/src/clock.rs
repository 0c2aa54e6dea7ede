//! The system clock.

use vstd::prelude::*;

verus! {

/// `std::time::SystemTime`, a time of the system clock, carried through
/// unread.
#[verifier::external_type_specification]
#[verifier::external_body]
pub struct ExSystemTime(std::time::SystemTime);

/// `std::time::SystemTimeError`, what `SystemTime::duration_since` reports
/// of a time that lies before the one it is measured from.
#[verifier::external_type_specification]
#[verifier::external_body]
pub struct ExSystemTimeError(std::time::SystemTimeError);

/// The time now, read by `std::time::SystemTime::now`. Nothing is claimed
/// of it.
#[verifier::external_body]
fn system_now() -> std::time::SystemTime {
    std::time::SystemTime::now()
}

/// How long after the epoch a time lies, by `SystemTime::duration_since`
/// with `UNIX_EPOCH`; an error for a time before the epoch. Nothing is
/// claimed of the outcome.
#[verifier::external_body]
fn since_epoch(time: &std::time::SystemTime) -> Result<
    std::time::Duration,
    std::time::SystemTimeError,
> {
    time.duration_since(std::time::UNIX_EPOCH)
}

/// The whole seconds of a duration, by `Duration::as_secs`. Nothing is
/// claimed of them.
#[verifier::external_body]
fn whole_seconds(duration: &std::time::Duration) -> u64 {
    duration.as_secs()
}

/// The part of a duration below a second, in nanoseconds, by
/// `Duration::subsec_nanos`: less than a second, as its documentation
/// says.
#[verifier::external_body]
fn nanos_below_second(duration: &std::time::Duration) -> (r: u32)
    ensures
        r < 1_000_000_000,
{
    duration.subsec_nanos()
}

/// The time now in whole seconds since the epoch. A clock that stands
/// before the epoch reads as the epoch. Whatever the clock says, the result
/// is not negative.
pub fn now_seconds() -> (r: i64)
    ensures
        r >= 0,
{
    let now = system_now();
    match since_epoch(&now) {
        Ok(elapsed) => {
            let seconds = whole_seconds(&elapsed);
            if seconds > 0x7FFF_FFFF_FFFF_FFFF {
                0x7FFF_FFFF_FFFF_FFFF
            } else {
                seconds as i64
            }
        },
        Err(_) => 0,
    }
}

/// The part of the time now that lies below the second, in nanoseconds;
/// zero where the clock stands before the epoch.
pub fn now_nanos() -> (r: u64)
    ensures
        r < 1_000_000_000,
{
    let now = system_now();
    match since_epoch(&now) {
        Ok(elapsed) => nanos_below_second(&elapsed) as u64,
        Err(_) => 0,
    }
}

} // verus!
