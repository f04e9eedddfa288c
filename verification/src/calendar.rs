//! Calendar arithmetic for reported timestamps.

use vstd::prelude::*;

verus! {

/// The Gregorian leap-year rule over astronomical year numbering.
pub open spec fn spec_is_leap_year(y: int) -> bool {
    (y % 4 == 0 && y % 100 != 0) || y % 400 == 0
}

/// Relies on year_helper::is_leap_year: a year is a leap year exactly when
/// it is a multiple of four and not of one hundred, or a multiple of four
/// hundred.
#[verifier::external_body]
pub(crate) fn is_leap_year(year: i32) -> (r: bool)
    ensures
        r == spec_is_leap_year(year as int),
{
    year_helper::is_leap_year(year)
}

/// Days in a calendar month, counted from one, for a common or leap year.
pub open spec fn spec_days_in_month(month: int, leap: bool) -> int {
    if month == 1 {
        31
    } else if month == 2 {
        if leap {
            29
        } else {
            28
        }
    } else if month == 3 {
        31
    } else if month == 4 {
        30
    } else if month == 5 {
        31
    } else if month == 6 {
        30
    } else if month == 7 {
        31
    } else if month == 8 {
        31
    } else if month == 9 {
        30
    } else if month == 10 {
        31
    } else if month == 11 {
        30
    } else {
        31
    }
}

/// Days of the year before the given month begins, counted from one.
pub open spec fn spec_days_before_month(month: int, leap: bool) -> int
    decreases month,
{
    if month <= 1 {
        0
    } else {
        spec_days_before_month(month - 1, leap) + spec_days_in_month(month - 1, leap)
    }
}

fn days_in_month(month: u16, leap: bool) -> (r: u16)
    requires
        1 <= month <= 12,
    ensures
        r as int == spec_days_in_month(month as int, leap),
        28 <= r <= 31,
{
    if month == 1 {
        31
    } else if month == 2 {
        if leap {
            29
        } else {
            28
        }
    } else if month == 3 {
        31
    } else if month == 4 {
        30
    } else if month == 5 {
        31
    } else if month == 6 {
        30
    } else if month == 7 {
        31
    } else if month == 8 {
        31
    } else if month == 9 {
        30
    } else if month == 10 {
        31
    } else if month == 11 {
        30
    } else {
        31
    }
}

/// Finds the calendar month and day of the month from a day of the year,
/// counting both from one and observing leap years.
pub fn month_from_day(day_of_year: u16, year: i32) -> (r: (u8, u16))
    requires
        1 <= day_of_year,
        day_of_year <= 365 || (day_of_year == 366 && spec_is_leap_year(year as int)),
    ensures
        1 <= r.0 <= 12,
        1 <= r.1 <= spec_days_in_month(r.0 as int, spec_is_leap_year(year as int)),
        spec_days_before_month(r.0 as int, spec_is_leap_year(year as int)) + r.1 == day_of_year,
{
    let leap: bool = is_leap_year(year);
    let mut month: u16 = 1;
    let mut days_left: u16 = day_of_year;
    while month < 12 && days_left > days_in_month(month, leap)
        invariant
            1 <= month <= 12,
            1 <= days_left,
            days_left as int == day_of_year - spec_days_before_month(
                month as int,
                spec_is_leap_year(year as int),
            ),
            leap == spec_is_leap_year(year as int),
            day_of_year <= 365 || (day_of_year == 366 && leap),
            month == 12 ==> days_left <= 31,
        decreases 12 - month,
    {
        days_left = days_left - days_in_month(month, leap);
        month = month + 1;
        proof {
            if month == 12 {
                lemma_days_before_december(spec_is_leap_year(year as int));
            }
        }
    }
    proof {
        if !(days_left <= spec_days_in_month(month as int, leap)) {
            assert(month == 12);
        }
    }
    (month as u8, days_left)
}

/// The days before December total 334 in a common year and 335 in a leap
/// year, so a day of the year never runs past December's 31 days.
proof fn lemma_days_before_december(leap: bool)
    ensures
        spec_days_before_month(12, leap) == if leap {
            335int
        } else {
            334int
        },
{
    reveal_with_fuel(spec_days_before_month, 13);
}

} // verus!
