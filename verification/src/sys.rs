//! The two values the bundle subsystem draws from the system: a fresh
//! bundle identifier and the current wall-clock time.

use vstd::prelude::*;
use crate::timespan::UtcTime;

verus! {

/// Relies on uuid's version-4 generator: `Uuid::new_v4`, reduced to its
/// 128 bits with `Uuid::as_u128`. Nothing can be promised of a random
/// value.
#[verifier::external_body]
pub fn fresh_uuid() -> (r: u128) {
    uuid::Uuid::new_v4().as_u128()
}

/// Relies on chrono's `Utc::now` and its calendar accessors: `year`,
/// `month` (one through twelve), `day` (one through thirty-one), `hour`
/// (below twenty-four), `minute` and `second` (below sixty, with a leap
/// second carried in the nanoseconds), and `timestamp_subsec_nanos`
/// (below two thousand million). Only those documented ranges are
/// promised; the clock itself promises nothing.
#[verifier::external_body]
pub fn now_parts() -> (r: (i32, u32, u32, u32, u32, u32, u32))
    ensures
        1 <= r.1 <= 12,
        1 <= r.2 <= 31,
        r.3 < 24,
        r.4 < 60,
        r.5 < 60,
        r.6 < 2_000_000_000,
{
    let t = chrono::Utc::now();
    (
        chrono::Datelike::year(&t),
        chrono::Datelike::month(&t),
        chrono::Datelike::day(&t),
        chrono::Timelike::hour(&t),
        chrono::Timelike::minute(&t),
        chrono::Timelike::second(&t),
        chrono::Timelike::nanosecond(&t),
    )
}

/// Shape a clock reading, in the accessor ranges the wall-clock library
/// documents, into a well-formed instant: the year is clamped into the
/// four-digit range, a leap second's nanoseconds are clamped to just
/// under one second, and every other field carries over unchanged.
pub fn clamp_clock_parts(parts: (i32, u32, u32, u32, u32, u32, u32)) -> (r: UtcTime)
    requires
        1 <= parts.1 <= 12,
        1 <= parts.2 <= 31,
        parts.3 < 24,
        parts.4 < 60,
        parts.5 < 60,
        parts.6 < 2_000_000_000,
    ensures
        r.year == if parts.0 < 1970 {
            1970int
        } else if parts.0 > 9999 {
            9999int
        } else {
            parts.0 as int
        },
        r.month == parts.1,
        r.day == parts.2,
        r.hour == parts.3,
        r.minute == parts.4,
        r.second == parts.5,
        r.nanos == if parts.6 >= 1_000_000_000 {
            999_999_999int
        } else {
            parts.6 as int
        },
        r.wf(),
{
    let (year, month, day, hour, minute, second, nanos) = parts;
    let y: u16 = if year < 1970 {
        1970
    } else if year > 9999 {
        9999
    } else {
        year as u16
    };
    let n: u32 = if nanos >= 1_000_000_000 {
        999_999_999
    } else {
        nanos
    };
    UtcTime {
        year: y,
        month: month as u8,
        day: day as u8,
        hour: hour as u8,
        minute: minute as u8,
        second: second as u8,
        nanos: n,
    }
}

/// The current wall-clock time as a well-formed instant, the clock
/// reading shaped by the clamp above.
pub fn now_utc() -> (r: UtcTime)
    ensures
        r.wf(),
{
    clamp_clock_parts(now_parts())
}

} // verus!
