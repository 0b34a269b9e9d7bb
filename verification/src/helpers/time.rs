//! FILETIME, the time format of the protocol: intervals of 100 nanoseconds
//! since the start of the year 1601.

use std::time::{SystemTime, UNIX_EPOCH};
use vstd::prelude::*;

verus! {

/// Seconds from the start of 1601 to the start of 1970.
pub const EPOCH_DIFF: u64 = 11_644_473_600;

/// Intervals of 100 nanoseconds in a second.
pub const TICKS_PER_SEC: u64 = 10_000_000;

/// `SystemTime::now` as the time that has passed since the start of 1970, in
/// whole seconds and the nanoseconds beyond them, of which there are fewer than
/// a second's worth; nothing if the clock stands before 1970.
#[verifier::external_body]
fn time_since_unix_epoch() -> (t: Option<(u64, u32)>)
    ensures
        t matches Some((secs, nanos)) ==> nanos < 1_000_000_000,
{
    match SystemTime::now().duration_since(UNIX_EPOCH) {
        Ok(d) => Some((d.as_secs(), d.subsec_nanos())),
        Err(_) => None,
    }
}

/// The FILETIME of a time after the start of 1970, as a number without bound.
pub open spec fn filetime_of_unix(secs: u64, nanos: u32) -> int {
    (secs + EPOCH_DIFF) * TICKS_PER_SEC + nanos / 100
}

/// Converts a time after the start of 1970 to a FILETIME. What lies past the
/// last FILETIME becomes the last one.
pub fn unix_to_filetime(secs: u64, nanos: u32) -> (filetime: u64)
    ensures
        filetime_of_unix(secs, nanos) <= u64::MAX ==> filetime == filetime_of_unix(secs, nanos),
        filetime_of_unix(secs, nanos) > u64::MAX ==> filetime == u64::MAX,
{
    assert((secs + EPOCH_DIFF) * TICKS_PER_SEC + nanos / 100 <= u128::MAX) by (nonlinear_arith)
        requires
            secs <= u64::MAX,
            EPOCH_DIFF == 11_644_473_600,
            TICKS_PER_SEC == 10_000_000,
            nanos <= u32::MAX,
    ;
    let ticks: u128 = (secs as u128 + EPOCH_DIFF as u128) * (TICKS_PER_SEC as u128) + (nanos
        / 100) as u128;
    if ticks <= u64::MAX as u128 {
        ticks as u64
    } else {
        u64::MAX
    }
}

/// Whether the clock can read so: whole seconds since the start of 1970 and the
/// nanoseconds beyond them, or nothing if it stands before 1970.
pub open spec fn is_reading(reading: Option<(u64, u32)>) -> bool {
    reading matches Some((secs, nanos)) ==> nanos < 1_000_000_000
}

/// The FILETIME of what the clock reads: zero if it stands before 1970, and the
/// last FILETIME if it stands past that.
pub open spec fn spec_filetime_at(reading: Option<(u64, u32)>) -> u64 {
    match reading {
        None => 0,
        Some((secs, nanos)) => if filetime_of_unix(secs, nanos) <= u64::MAX {
            filetime_of_unix(secs, nanos) as u64
        } else {
            u64::MAX
        },
    }
}

pub fn filetime_at(reading: Option<(u64, u32)>) -> (filetime: u64)
    ensures
        filetime == spec_filetime_at(reading),
{
    match reading {
        Some((secs, nanos)) => unix_to_filetime(secs, nanos),
        None => 0,
    }
}

/// Whether a FILETIME is that of something the clock can read.
pub open spec fn is_clock_filetime(filetime: u64) -> bool {
    exists|reading: Option<(u64, u32)>|
        is_reading(reading) && filetime == #[trigger] spec_filetime_at(reading)
}

/// The present time as a FILETIME, or zero if the clock stands before 1970.
pub fn current_filetime() -> (filetime: u64)
    ensures
        is_clock_filetime(filetime),
{
    filetime_at(time_since_unix_epoch())
}

/// The whole seconds of what the clock reads, zero if it stands before 1970.
pub open spec fn spec_unix_time_at(reading: Option<(u64, u32)>) -> u64 {
    match reading {
        None => 0,
        Some((secs, nanos)) => secs,
    }
}

pub fn unix_time_at(reading: Option<(u64, u32)>) -> (secs: u64)
    ensures
        secs == spec_unix_time_at(reading),
{
    match reading {
        Some((secs, _)) => secs,
        None => 0,
    }
}

/// The present time in whole seconds since the start of 1970, or zero if the
/// clock stands before it. The clock may read any number of seconds.
pub fn current_unix_time() -> (secs: u64)
    ensures
        exists|reading: Option<(u64, u32)>|
            is_reading(reading) && secs == #[trigger] spec_unix_time_at(reading),
{
    unix_time_at(time_since_unix_epoch())
}

/// Milliseconds since the start of 1970, as a number without bound.
pub open spec fn millis_of_unix(secs: u64, nanos: u32) -> int {
    secs * 1000 + nanos / 1_000_000
}

/// The milliseconds of what the clock reads: zero if it stands before 1970, and
/// the last number there is if they do not fit.
pub open spec fn spec_unix_millis_at(reading: Option<(u64, u32)>) -> u64 {
    match reading {
        None => 0,
        Some((secs, nanos)) => if millis_of_unix(secs, nanos) <= u64::MAX {
            millis_of_unix(secs, nanos) as u64
        } else {
            u64::MAX
        },
    }
}

pub fn unix_millis_at(reading: Option<(u64, u32)>) -> (millis: u64)
    ensures
        millis == spec_unix_millis_at(reading),
{
    match reading {
        Some((secs, nanos)) => {
            let millis: u128 = secs as u128 * 1000 + (nanos / 1_000_000) as u128;
            if millis <= u64::MAX as u128 {
                millis as u64
            } else {
                u64::MAX
            }
        },
        None => 0,
    }
}

/// The present time in milliseconds since the start of 1970, or zero if the
/// clock stands before it. What does not fit becomes the last time there is.
pub fn current_unix_millis() -> (millis: u64)
    ensures
        exists|reading: Option<(u64, u32)>|
            is_reading(reading) && millis == #[trigger] spec_unix_millis_at(reading),
{
    unix_millis_at(time_since_unix_epoch())
}

/// Converts a FILETIME to whole seconds since the start of 1970. Times before
/// it become zero.
pub fn filetime_to_unix(filetime: u64) -> (secs: u64)
    ensures
        filetime / TICKS_PER_SEC >= EPOCH_DIFF ==> secs == filetime / TICKS_PER_SEC - EPOCH_DIFF,
        filetime / TICKS_PER_SEC < EPOCH_DIFF ==> secs == 0,
{
    let seconds_since_1601: u64 = filetime / TICKS_PER_SEC;
    seconds_since_1601.saturating_sub(EPOCH_DIFF)
}

/// The whole seconds of a time survive the way to a FILETIME and back.
pub proof fn law_filetime_round_trip(secs: u64, nanos: u32)
    requires
        nanos < 1_000_000_000,
        filetime_of_unix(secs, nanos) <= u64::MAX,
    ensures
        filetime_of_unix(secs, nanos) / (TICKS_PER_SEC as int) - EPOCH_DIFF == secs,
{
    assert(nanos / 100 < TICKS_PER_SEC);
}

/// A FILETIME counts tenths of a microsecond from the start of 1601, of which
/// there are 116444736000000000 up to the start of 1970.
pub proof fn law_filetime_of_unix(secs: u64, nanos: u32)
    ensures
        filetime_of_unix(secs, nanos) == 116_444_736_000_000_000 + 10_000_000 * secs + nanos / 100,
        filetime_of_unix(secs, nanos) <= u64::MAX ==> spec_filetime_at(Some((secs, nanos)))
            == filetime_of_unix(secs, nanos),
        spec_filetime_at(None) == 0,
{
}

/// What the clock reads in seconds and in milliseconds is the same time.
pub proof fn law_clock_readings_agree(secs: u64, nanos: u32)
    requires
        nanos < 1_000_000_000,
        secs * 1000 + 999 <= u64::MAX,
    ensures
        spec_unix_time_at(Some((secs, nanos))) == secs,
        spec_unix_millis_at(Some((secs, nanos))) == 1000 * secs + nanos / 1_000_000,
        spec_unix_millis_at(Some((secs, nanos))) / 1000 == spec_unix_time_at(Some((secs, nanos))),
        spec_unix_time_at(None) == 0,
        spec_unix_millis_at(None) == 0,
{
}

/// A later time has a later FILETIME, or the same one if the two are less than a
/// tenth of a microsecond apart.
pub proof fn law_filetime_is_monotone(secs1: u64, nanos1: u32, secs2: u64, nanos2: u32)
    requires
        nanos1 < 1_000_000_000,
        nanos2 < 1_000_000_000,
        secs1 < secs2 || (secs1 == secs2 && nanos1 <= nanos2),
    ensures
        filetime_of_unix(secs1, nanos1) <= filetime_of_unix(secs2, nanos2),
        secs1 < secs2 ==> filetime_of_unix(secs1, nanos1) < filetime_of_unix(secs2, nanos2),
{
}

} // verus!
