//! The calendar year of a day, for the upper bound of the year buckets.

use vstd::prelude::*;

verus! {

/// The year in which day 0 lies.
pub const EPOCH_YEAR: u32 = 1970;

/// Number of seconds in a day.
pub const SECONDS_PER_DAY: u64 = 86_400;

/// Whether `year` is a leap year of the Gregorian calendar.
pub open spec fn is_leap(year: nat) -> bool {
    year % 4 == 0 && (year % 100 != 0 || year % 400 == 0)
}

/// Number of days in `year`.
pub open spec fn year_length(year: nat) -> nat {
    if is_leap(year) {
        366
    } else {
        365
    }
}

/// Number of days from the first day of `EPOCH_YEAR` to the first day of
/// `year`.
pub open spec fn days_before(year: nat) -> nat
    decreases year,
{
    if year <= EPOCH_YEAR {
        0
    } else {
        days_before((year - 1) as nat) + year_length((year - 1) as nat)
    }
}

/// Number of days in `year`.
fn length_of(year: u32) -> (n: u32)
    ensures
        n == year_length(year as nat),
{
    if year % 4 == 0 && (year % 100 != 0 || year % 400 == 0) {
        366
    } else {
        365
    }
}

/// The year in which the day number `day` lies, day 0 being the first day
/// of `EPOCH_YEAR`.
pub fn year_of_day(day: u32) -> (year: u32)
    ensures
        year >= EPOCH_YEAR,
        days_before(year as nat) <= day < days_before((year + 1) as nat),
{
    let mut year: u32 = EPOCH_YEAR;
    let mut start: u32 = 0;
    loop
        invariant
            year >= EPOCH_YEAR,
            start == days_before(year as nat),
            start <= day,
            (year - EPOCH_YEAR) * 365 <= start,
        decreases day - start,
    {
        let length = length_of(year);
        if day - start < length {
            return year;
        }
        start = start + length;
        year = year + 1;
    }
}

/// The year in which the second number `seconds` lies in universal time,
/// second 0 being the first of `EPOCH_YEAR`. Seconds beyond the last day
/// that can be counted give the year of that day.
pub fn year_of_seconds(seconds: u64) -> (year: u32)
    ensures
        year >= EPOCH_YEAR,
        seconds / SECONDS_PER_DAY <= u32::MAX ==> days_before(year as nat) <= seconds
            / SECONDS_PER_DAY < days_before((year + 1) as nat),
        seconds / SECONDS_PER_DAY > u32::MAX ==> days_before(year as nat) <= u32::MAX
            < days_before((year + 1) as nat),
{
    let days = seconds / SECONDS_PER_DAY;
    if days > u32::MAX as u64 {
        year_of_day(u32::MAX)
    } else {
        year_of_day(days as u32)
    }
}

} // verus!
