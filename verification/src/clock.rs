//! The wall clock in whole seconds, and the cutoffs of the reporting periods.

use std::time::Duration;
use std::time::SystemTime;
use std::time::SystemTimeError;
use vstd::prelude::*;

verus! {

/// `std::time::SystemTime`, a reading of the wall clock.
#[verifier::external_type_specification]
#[verifier::external_body]
pub struct ExSystemTime(SystemTime);

/// `std::time::SystemTimeError`, which reports that the clock stands before the
/// instant that it was compared with.
#[verifier::external_type_specification]
#[verifier::external_body]
pub struct ExSystemTimeError(SystemTimeError);

/// `SystemTime::now` reads the wall clock. Nothing is promised of the reading.
pub assume_specification[ std::time::SystemTime::now ]() -> (reading: std::time::SystemTime);

/// The time that a reading of the clock lies after the start of 1970, where it does.
pub uninterp spec fn passed_at(reading: SystemTime) -> Option<Duration>;

/// `SystemTime::duration_since` with the start of 1970 gives the time passed
/// since then, or an error where the clock stands before it. Which of the two it
/// is, and what time has passed, is told by the reading alone.
#[verifier::external_body]
fn since_epoch(reading: &SystemTime) -> (passed: Result<Duration, SystemTimeError>)
    ensures
        match passed {
            Ok(passed) => passed_at(*reading) == Some(passed),
            Err(_) => passed_at(*reading) is None,
        },
{
    reading.duration_since(std::time::UNIX_EPOCH)
}

/// The whole seconds of a duration.
pub uninterp spec fn whole_seconds(duration: std::time::Duration) -> u64;

/// `Duration::as_secs` gives the whole seconds of a duration, which it alone tells.
pub assume_specification[ std::time::Duration::as_secs ](duration: &std::time::Duration) -> (seconds: u64)
    ensures
        seconds == whole_seconds(*duration),
;

/// Seconds since 1970 as a signed timestamp. Counts past the signed range wrap
/// around.
pub open spec fn timestamp(seconds: u64) -> int {
    if seconds <= i64::MAX {
        seconds as int
    } else {
        seconds - 0x1_0000_0000_0000_0000
    }
}

/// The timestamp of a reading of the clock: `seconds` whole seconds since 1970,
/// or none where the clock stands before 1970, which reads as zero.
pub fn timestamp_of(seconds: Option<u64>) -> (at: i64)
    ensures
        seconds is None ==> at == 0,
        seconds is Some ==> at == timestamp(seconds->0),
{
    match seconds {
        Some(seconds) => {
            let at = seconds as i64;
            assert(seconds <= 0x7fff_ffff_ffff_ffff ==> at == seconds) by (bit_vector)
                requires
                    at == seconds as i64,
            ;
            assert(seconds > 0x7fff_ffff_ffff_ffff ==> at == seconds - 0x1_0000_0000_0000_0000)
                by (bit_vector)
                requires
                    at == seconds as i64,
            ;
            at
        },
        None => 0,
    }
}

/// The timestamp of a reading of the clock.
pub open spec fn read_as(reading: SystemTime) -> int {
    match passed_at(reading) {
        Some(passed) => timestamp(whole_seconds(passed)),
        None => 0,
    }
}

/// Whether the clock can have given this timestamp.
pub open spec fn is_reading(at: i64) -> bool {
    exists|reading: SystemTime| #[trigger] read_as(reading) == at
}

/// The current time in seconds since 1970. What the clock reads is not
/// constrained.
pub fn now() -> (at: i64)
    ensures
        is_reading(at),
{
    let reading = SystemTime::now();
    let seconds: Option<u64> = match since_epoch(&reading) {
        Ok(passed) => Some(passed.as_secs()),
        Err(_) => None,
    };
    let at = timestamp_of(seconds);
    assert(read_as(reading) == at);
    at
}

/// Seconds in a day.
pub const SECONDS_PER_DAY: u64 = 86_400;

/// The first timestamp that belongs to the last `days` days before `now`. A
/// period without a length starts at zero. Both the product and the difference
/// stop at the ends of the signed range.
pub open spec fn cutoff(now: i64, days: Option<u64>) -> int {
    match days {
        None => 0,
        Some(days) => {
            let span = days * SECONDS_PER_DAY;
            let capped = if span <= i64::MAX {
                span
            } else {
                i64::MAX as int
            };
            if now - capped >= i64::MIN {
                now - capped
            } else {
                i64::MIN as int
            }
        },
    }
}

/// Computes the start of a reporting period.
pub fn cutoff_at(now: i64, days: Option<u64>) -> (start: i64)
    ensures
        start == cutoff(now, days),
{
    match days {
        None => 0,
        Some(days) => {
            let span: i64 = if days <= i64::MAX as u64 / SECONDS_PER_DAY {
                (days * SECONDS_PER_DAY) as i64
            } else {
                i64::MAX
            };
            if now >= i64::MIN + span {
                now - span
            } else {
                i64::MIN
            }
        },
    }
}

/// A period of some days starts exactly that many days of 86 400 seconds before now,
/// wherever the span and the start can be written down, and as near to that as they can
/// elsewhere. The period without a length starts with 1970.
pub proof fn period_starts_its_days_before_now(now: i64, days: u64)
    ensures
        days * 86_400 <= i64::MAX && now - days * 86_400 >= i64::MIN ==> cutoff(now, Some(days))
            == now - days * 86_400,
        days * 86_400 <= i64::MAX && now - days * 86_400 < i64::MIN ==> cutoff(now, Some(days))
            == i64::MIN,
        days * 86_400 > i64::MAX && now >= 0 ==> cutoff(now, Some(days)) == now - i64::MAX,
        days * 86_400 > i64::MAX && now < 0 ==> cutoff(now, Some(days)) == i64::MIN,
        cutoff(now, None) == 0,
        i64::MIN <= cutoff(now, Some(days)) <= i64::MAX,
{
}

/// One more day reaches back by one more day.
pub proof fn one_more_day_reaches_further(now: i64, days: u64)
    requires
        (days + 1) * 86_400 <= i64::MAX,
        now - (days + 1) * 86_400 >= i64::MIN,
    ensures
        cutoff(now, Some((days + 1) as u64)) == cutoff(now, Some(days)) - 86_400,
        cutoff(now, Some(0)) == now,
{
}

/// A count of seconds within the signed range is its own timestamp. One past it gives the
/// negative number that has the same remainder.
pub proof fn timestamps_are_their_seconds(seconds: u64)
    ensures
        seconds <= i64::MAX ==> timestamp(seconds) == seconds,
        seconds > i64::MAX ==> i64::MIN <= timestamp(seconds) < 0,
        (seconds - timestamp(seconds)) % 0x1_0000_0000_0000_0000 == 0,
{
}

/// A longer period never starts later than a shorter one.
pub proof fn longer_period_starts_earlier(now: i64, short: u64, long: u64)
    requires
        short <= long,
    ensures
        cutoff(now, Some(long)) <= cutoff(now, Some(short)),
        cutoff(now, Some(short)) <= now,
{
    assert(short * SECONDS_PER_DAY <= long * SECONDS_PER_DAY) by (nonlinear_arith)
        requires
            short <= long,
    ;
}

/// A time that the clock can have given is the number of whole seconds since 1970 that a reading
/// lies after its start, or zero where it lies before.
pub proof fn times_come_from_the_clock(at: i64) -> (reading: SystemTime)
    requires
        is_reading(at),
    ensures
        passed_at(reading) is None ==> at == 0,
        passed_at(reading) matches Some(passed) ==> (whole_seconds(passed) <= i64::MAX ==> at
            == whole_seconds(passed)),
        passed_at(reading) matches Some(passed) ==> (whole_seconds(passed) - at)
            % 0x1_0000_0000_0000_0000 == 0,
{
    choose|reading: SystemTime| #[trigger] read_as(reading) == at
}

} // verus!
