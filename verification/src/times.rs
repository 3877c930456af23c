//! Points in time as counts of seconds since the start of 1970.

use std::time::SystemTime;

use chrono::{DateTime, Utc};
use vstd::prelude::*;

verus! {

/// The points in time that the system clock and the file system give.
#[verifier::external_type_specification]
#[verifier::external_body]
pub struct ExSystemTime(std::time::SystemTime);

/// How far a point in time lies after the start of 1970 (`Ok`) or before it (`Err`), in whole
/// seconds and the nanoseconds that remain: what `SystemTime::duration_since` gives.
pub uninterp spec fn since_epoch(t: std::time::SystemTime) -> Result<(u64, u32), (u64, u32)>;

/// `SystemTime::duration_since` of the standard library, from the start of 1970 on. An earlier
/// point in time gives an error that holds how much earlier it is. The nanoseconds are less than a
/// second.
#[verifier::external_body]
fn offset_from_epoch(t: SystemTime) -> (r: Result<(u64, u32), (u64, u32)>)
    ensures
        r == since_epoch(t),
        r matches Ok(d) ==> d.1 < 1_000_000_000,
        r matches Err(d) ==> d.1 < 1_000_000_000 && (d.0 > 0 || d.1 > 0),
{
    match t.duration_since(SystemTime::UNIX_EPOCH) {
        Ok(d) => Ok((d.as_secs(), d.subsec_nanos())),
        Err(e) => Err((e.duration().as_secs(), e.duration().subsec_nanos())),
    }
}

/// The whole seconds that lie `offset` from the start of 1970, and none before it.
pub open spec fn timestamp(offset: Result<(u64, u32), (u64, u32)>) -> i64 {
    match offset {
        Ok(d) => d.0 as i64,
        Err(_) => 0,
    }
}

/// The whole seconds that lie `offset` from the start of 1970, and none before it.
pub fn timestamp_at(offset: Result<(u64, u32), (u64, u32)>) -> (r: i64)
    ensures
        r == timestamp(offset),
{
    match offset {
        Ok(d) => #[verifier::truncate] (d.0 as i64),
        Err(_) => 0,
    }
}

/// The whole seconds from the start of 1970 to `t`, and none where `t` is earlier.
pub fn to_timestamp(t: SystemTime) -> (r: i64)
    ensures
        r == timestamp(since_epoch(t)),
{
    timestamp_at(offset_from_epoch(t))
}

/// A point in time: whole seconds since the start of 1970, negative before it, and nanoseconds
/// after that second.
#[derive(Clone, Copy, PartialEq, Eq, Structural, Debug)]
pub struct UtcTime {
    pub secs: i64,
    pub nanos: u32,
}

/// The seconds, rounded down, and the nanoseconds after them that lie `offset` from the start of
/// 1970.
pub open spec fn calendar_offset(offset: Result<(u64, u32), (u64, u32)>) -> (int, int) {
    match offset {
        Ok(d) => (d.0 as int, d.1 as int),
        Err(d) => if d.1 == 0 {
            (-(d.0 as int), 0)
        } else {
            (-(d.0 as int) - 1, 1_000_000_000 - d.1)
        },
    }
}

/// Whether the second lies in the years that the calendar reaches, from the start of year -262143
/// to the end of year 262142.
pub open spec fn in_calendar(secs: int) -> bool {
    -8_334_601_228_800 <= secs <= 8_210_266_876_799
}

/// `DateTime::<Utc>::from(SystemTime)` of chrono: the second that the point in time falls into and
/// the nanoseconds after it. It panics outside the years that chrono's calendar reaches.
#[verifier::external_body]
fn date_time(t: SystemTime) -> (r: UtcTime)
    requires
        in_calendar(calendar_offset(since_epoch(t)).0),
    ensures
        r.secs == calendar_offset(since_epoch(t)).0,
        r.nanos == calendar_offset(since_epoch(t)).1,
{
    let d = DateTime::<Utc>::from(t);
    UtcTime { secs: d.timestamp(), nanos: d.timestamp_subsec_nanos() }
}

/// Tells whether the calendar reaches the point in time that lies `offset` from the start of 1970.
pub fn calendar_reaches(offset: Result<(u64, u32), (u64, u32)>) -> (r: bool)
    ensures
        r == in_calendar(calendar_offset(offset).0),
{
    match offset {
        Ok(d) => d.0 <= 8_210_266_876_799,
        Err(d) => if d.1 == 0 {
            d.0 <= 8_334_601_228_800
        } else {
            d.0 < 8_334_601_228_800
        },
    }
}

/// The point in time `t` in the calendar; nothing where it lies outside the years that the calendar
/// reaches.
pub fn utc_time(t: SystemTime) -> (r: Option<UtcTime>)
    ensures
        match r {
            Some(u) => {
                &&& in_calendar(calendar_offset(since_epoch(t)).0)
                &&& u.secs == calendar_offset(since_epoch(t)).0
                &&& u.nanos == calendar_offset(since_epoch(t)).1
            },
            None => !in_calendar(calendar_offset(since_epoch(t)).0),
        },
{
    if calendar_reaches(offset_from_epoch(t)) {
        Some(date_time(t))
    } else {
        None
    }
}

/// From the start of 1970 on, the calendar and `to_timestamp` agree on the second; before it the
/// calendar counts down while `to_timestamp` stays at zero.
pub proof fn timestamps_agree(offset: Result<(u64, u32), (u64, u32)>)
    requires
        in_calendar(calendar_offset(offset).0),
    ensures
        offset is Ok ==> calendar_offset(offset).0 == timestamp(offset),
        offset is Err ==> calendar_offset(offset).0 <= timestamp(offset) == 0,
{
}

/// The second and the nanoseconds in the calendar are just as far from the start of 1970 as the
/// point in time is, after it or before it, and the nanoseconds are less than a second.
pub proof fn calendar_keeps_the_distance(offset: Result<(u64, u32), (u64, u32)>)
    requires
        offset matches Ok(d) ==> d.1 < 1_000_000_000,
        offset matches Err(d) ==> d.1 < 1_000_000_000,
    ensures
        ({
            let (secs, nanos) = calendar_offset(offset);
            &&& 0 <= nanos < 1_000_000_000
            &&& offset matches Ok(d) ==> secs * 1_000_000_000 + nanos == d.0 * 1_000_000_000 + d.1
            &&& offset matches Err(d) ==> secs * 1_000_000_000 + nanos == -(d.0 * 1_000_000_000
                + d.1)
        }),
{
}

/// A timestamp is the number of whole seconds since the start of 1970, as far as 63 bits hold it,
/// and zero before.
pub proof fn timestamps_are_whole_seconds(offset: Result<(u64, u32), (u64, u32)>)
    ensures
        offset matches Ok(d) ==> d.0 <= i64::MAX ==> timestamp(offset) == d.0,
        offset is Err ==> timestamp(offset) == 0,
{
}

/// The calendar reaches whole days, without a gap: from a first one to a last one, which lie as many
/// days from the start of 1970 as the start of year -262143 and the end of year 262142 do.
pub proof fn calendar_reaches_whole_days(secs: int)
    ensures
        in_calendar(secs) <==> -96_465_292 * 86_400 <= secs < 95_026_237 * 86_400,
{
}

} // verus!
