//! UTC calendar arithmetic on timestamps given in microseconds since the Unix
//! epoch. Negative timestamps count as the epoch itself.

use vstd::prelude::*;

verus! {

pub const MICROS_PER_DAY: i64 = 86_400_000_000;

pub const MICROS_PER_HOUR: i64 = 3_600_000_000;

/// The timestamp, with negative values moved to the epoch.
pub open spec fn clamped(micros: int) -> int {
    if micros < 0 {
        0
    } else {
        micros
    }
}

/// Days since 1970-01-01.
pub open spec fn day_of(micros: int) -> int {
    clamped(micros) / (MICROS_PER_DAY as int)
}

/// Hour of the day, 0 to 23.
pub open spec fn hour_of(micros: int) -> int {
    (clamped(micros) % (MICROS_PER_DAY as int)) / (MICROS_PER_HOUR as int)
}

/// Day of the week, 0 for Sunday; the epoch fell on a Thursday.
pub open spec fn weekday_of(micros: int) -> int {
    (day_of(micros) + 4) % 7
}

/// Days since the epoch of the given instant.
pub fn day_number_from_timestamp(micros: i64) -> (r: i64)
    ensures
        r == day_of(micros as int),
        r >= 0,
{
    if micros <= 0 {
        0
    } else {
        micros / MICROS_PER_DAY
    }
}

/// Hour of the day, day of the week and day number of the given instant.
pub fn hour_and_dow_and_day(micros: i64) -> (r: (u32, u32, i64))
    ensures
        r.0 == hour_of(micros as int),
        r.1 == weekday_of(micros as int),
        r.2 == day_of(micros as int),
        r.0 < 24,
        r.1 < 7,
{
    let m: i64 = if micros < 0 {
        0
    } else {
        micros
    };
    let day = m / MICROS_PER_DAY;
    let into_day = m - day * MICROS_PER_DAY;
    assert(into_day == m % MICROS_PER_DAY);
    let hour = (into_day / MICROS_PER_HOUR) as u32;
    let dow = ((day + 4) % 7) as u32;
    (hour, dow, day)
}

/// Before noon.
pub fn is_morning(hour: u32) -> (r: bool)
    ensures
        r == (hour < 12),
{
    hour < 12
}

/// From six in the evening on.
pub fn is_evening(hour: u32) -> (r: bool)
    ensures
        r == (hour >= 18),
{
    hour >= 18
}

/// Saturday or Sunday.
pub fn is_weekend(dow: u32) -> (r: bool)
    ensures
        r == (dow == 0 || dow == 6),
{
    dow == 0 || dow == 6
}

} // verus!
