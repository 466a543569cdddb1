//! The proleptic Gregorian calendar over day numbers, day 0 being
//! 1 January 1970, with year 0 and negative years before year 1.

use vstd::prelude::*;

verus! {

pub open spec fn is_leap_year(year: int) -> bool {
    year % 4 == 0 && (year % 100 != 0 || year % 400 == 0)
}

/// Count of leap years from year 1 up to, not including, `year`; for
/// `year < 1` the negated count of those from `year` up to year 0.
pub open spec fn leap_years_before(year: int) -> int {
    (year - 1) / 4 - (year - 1) / 100 + (year - 1) / 400
}

/// Day number of 1 January of `year`.
pub open spec fn days_before_year(year: int) -> int {
    365 * (year - 1970) + leap_years_before(year) - 477
}

/// Days of `year` that precede the first day of `month`; month 13
/// stands for January of the next year.
pub open spec fn days_before_month(year: int, month: int) -> int {
    let common: int = if month <= 1 {
        0
    } else if month == 2 {
        31
    } else if month == 3 {
        59
    } else if month == 4 {
        90
    } else if month == 5 {
        120
    } else if month == 6 {
        151
    } else if month == 7 {
        181
    } else if month == 8 {
        212
    } else if month == 9 {
        243
    } else if month == 10 {
        273
    } else if month == 11 {
        304
    } else if month == 12 {
        334
    } else {
        365
    };
    if month > 2 && is_leap_year(year) {
        common + 1
    } else {
        common
    }
}

/// Day number of the first day of `month` in `year`.
pub open spec fn first_day_of_month(year: int, month: int) -> int {
    days_before_year(year) + days_before_month(year, month)
}

pub open spec fn day_in_year(day: int, year: int) -> bool {
    days_before_year(year) <= day < days_before_year(year + 1)
}

pub open spec fn day_in_month(day: int, year: int, month: int) -> bool {
    &&& 1 <= month <= 12
    &&& first_day_of_month(year, month) <= day < first_day_of_month(year, month + 1)
}

/// The calendar year that holds `day`.
pub open spec fn year_of_day(day: int) -> int {
    choose|year: int| day_in_year(day, year)
}

/// The month, 1 to 12, that holds `day`.
pub open spec fn month_of_day(day: int) -> int {
    choose|month: int| day_in_month(day, year_of_day(day), month)
}

/// A year has 365 days, and one more when it is a leap year.
pub proof fn lemma_year_length(year: int)
    ensures
        days_before_year(year + 1) == days_before_year(year) + 365 + if is_leap_year(year) {
            1int
        } else {
            0int
        },
        first_day_of_month(year, 1) == days_before_year(year),
        first_day_of_month(year, 13) == days_before_year(year + 1),
{
}

/// Later years start later, by at least 365 days a year.
pub proof fn lemma_years_increase(a: int, b: int)
    requires
        a <= b,
    ensures
        days_before_year(a) + 365 * (b - a) <= days_before_year(b),
        days_before_year(b) <= days_before_year(a) + 366 * (b - a),
    decreases b - a,
{
    if a < b {
        lemma_years_increase(a, b - 1);
        lemma_year_length(b - 1);
    }
}

/// Each month has between 28 and 31 days.
pub proof fn lemma_month_length(year: int, month: int)
    requires
        1 <= month <= 12,
    ensures
        first_day_of_month(year, month) + 28 <= first_day_of_month(year, month + 1),
        first_day_of_month(year, month + 1) <= first_day_of_month(year, month) + 31,
        days_before_year(year) <= first_day_of_month(year, month),
        first_day_of_month(year, month + 1) <= days_before_year(year + 1),
{
    lemma_year_length(year);
}

/// Only one year holds a given day.
pub proof fn lemma_year_unique(day: int, year: int)
    requires
        day_in_year(day, year),
    ensures
        year_of_day(day) == year,
{
    let other = year_of_day(day);
    if other < year {
        lemma_years_increase(other + 1, year);
    } else if year < other {
        lemma_years_increase(year + 1, other);
    }
}

/// Only one month holds a given day.
pub proof fn lemma_month_unique(day: int, year: int, month: int)
    requires
        day_in_month(day, year, month),
    ensures
        day_in_year(day, year),
        year_of_day(day) == year,
        month_of_day(day) == month,
{
    lemma_month_length(year, month);
    lemma_year_unique(day, year);
}

proof fn lemma_year_found_upward(day: int, year: int)
    requires
        days_before_year(year) <= day,
    ensures
        exists|y: int| day_in_year(day, y),
    decreases day - days_before_year(year),
{
    lemma_year_length(year);
    if day < days_before_year(year + 1) {
        assert(day_in_year(day, year));
    } else {
        lemma_year_found_upward(day, year + 1);
    }
}

proof fn lemma_year_found_downward(day: int, year: int)
    requires
        day < days_before_year(year + 1),
    ensures
        exists|y: int| day_in_year(day, y),
    decreases days_before_year(year + 1) - day,
{
    lemma_year_length(year);
    if days_before_year(year) <= day {
        assert(day_in_year(day, year));
    } else {
        lemma_year_found_downward(day, year - 1);
    }
}

/// Every day lies in some year, and in some month of it.
pub proof fn lemma_day_has_month(day: int)
    ensures
        day_in_year(day, year_of_day(day)),
        day_in_month(day, year_of_day(day), month_of_day(day)),
{
    if 0 <= day {
        lemma_year_found_upward(day, 1970);
    } else {
        lemma_year_found_downward(day, 1969);
    }
    let year = year_of_day(day);
    lemma_year_length(year);
    let offset = day - days_before_year(year);
    let month: int = if offset < days_before_month(year, 2) {
        1
    } else if offset < days_before_month(year, 3) {
        2
    } else if offset < days_before_month(year, 4) {
        3
    } else if offset < days_before_month(year, 5) {
        4
    } else if offset < days_before_month(year, 6) {
        5
    } else if offset < days_before_month(year, 7) {
        6
    } else if offset < days_before_month(year, 8) {
        7
    } else if offset < days_before_month(year, 9) {
        8
    } else if offset < days_before_month(year, 10) {
        9
    } else if offset < days_before_month(year, 11) {
        10
    } else if offset < days_before_month(year, 12) {
        11
    } else {
        12
    };
    assert(day_in_month(day, year, month));
}

} // verus!
