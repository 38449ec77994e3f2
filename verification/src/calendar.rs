//! The Gregorian calendar: from a day number to a date.

use vstd::prelude::*;

verus! {

/// A year with a 29th of February.
pub open spec fn is_leap(year: int) -> bool {
    year % 4 == 0 && (year % 100 != 0 || year % 400 == 0)
}

/// How many days a month has.
pub open spec fn days_in_month(year: int, month: int) -> int {
    if month == 2 {
        if is_leap(year) {
            29
        } else {
            28
        }
    } else if month == 4 || month == 6 || month == 9 || month == 11 {
        30
    } else {
        31
    }
}

/// A day that is in the calendar.
pub open spec fn is_date(year: int, month: int, day: int) -> bool {
    1 <= month <= 12 && 1 <= day <= days_in_month(year, month)
}

/// The days of a year before a month.
pub open spec fn days_before_month(year: int, month: int) -> int
    decreases month,
{
    if month <= 1 {
        0
    } else {
        days_before_month(year, month - 1) + days_in_month(year, month - 1)
    }
}

/// The days from the first of January of the year 1 to that of the given year.
pub open spec fn days_before_year(year: int) -> int {
    365 * (year - 1) + (year - 1) / 4 - (year - 1) / 100 + (year - 1) / 400
}

/// The days from the first of January 1970 to a date.
pub open spec fn day_number(year: int, month: int, day: int) -> int {
    days_before_year(year) + days_before_month(year, month) + day - 1 - days_before_year(1970)
}

/// Day 0 is the first of January 1970.
pub proof fn law_epoch()
    ensures
        day_number(1970, 1, 1) == 0,
{
}

/// The day after a date has the next number, also over the end of a month or a year.
pub proof fn law_days_are_consecutive(year: int, month: int, day: int)
    requires
        is_date(year, month, day),
    ensures
        day < days_in_month(year, month) ==> day_number(year, month, day + 1) == day_number(
            year,
            month,
            day,
        ) + 1,
        day == days_in_month(year, month) && month < 12 ==> day_number(year, month + 1, 1)
            == day_number(year, month, day) + 1,
        day == days_in_month(year, month) && month == 12 ==> day_number(year + 1, 1, 1)
            == day_number(year, month, day) + 1,
{
    lemma_year_length(year);
    lemma_month_starts(year);
}

/// Two dates with the same number are the same date.
pub proof fn law_day_number_is_unique(
    year1: int,
    month1: int,
    day1: int,
    year2: int,
    month2: int,
    day2: int,
)
    requires
        is_date(year1, month1, day1),
        is_date(year2, month2, day2),
        day_number(year1, month1, day1) == day_number(year2, month2, day2),
    ensures
        year1 == year2 && month1 == month2 && day1 == day2,
{
    lemma_month_starts(year1);
    lemma_month_starts(year2);
    lemma_year_length(year1);
    lemma_year_length(year2);
    if year1 < year2 {
        lemma_years_apart(year1, year2);
    } else if year2 < year1 {
        lemma_years_apart(year2, year1);
    }
}

/// Every fourth year has a 29th of February, but of the years that end a century only every fourth.
/// Such a year has 366 days and any other 365; four centuries have 146097 days, whichever they are.
pub proof fn law_leap_years(year: int)
    ensures
        year % 4 != 0 ==> days_before_year(year + 1) - days_before_year(year) == 365,
        year % 4 == 0 && year % 100 != 0 ==> days_before_year(year + 1) - days_before_year(year)
            == 366,
        year % 100 == 0 && year % 400 != 0 ==> days_before_year(year + 1) - days_before_year(year)
            == 365,
        year % 400 == 0 ==> days_before_year(year + 1) - days_before_year(year) == 366,
        days_before_year(year + 400) - days_before_year(year) == 146097,
        days_in_month(year, 2) == (if year % 400 == 0 || (year % 4 == 0 && year % 100 != 0) {
            29int
        } else {
            28
        }),
{
    lemma_year_length(year);
}

/// The lengths of the other months, in every year; a year is its twelve months.
pub proof fn law_month_lengths(year: int)
    ensures
        days_in_month(year, 1) == 31,
        days_in_month(year, 3) == 31,
        days_in_month(year, 4) == 30,
        days_in_month(year, 5) == 31,
        days_in_month(year, 6) == 30,
        days_in_month(year, 7) == 31,
        days_in_month(year, 8) == 31,
        days_in_month(year, 9) == 30,
        days_in_month(year, 10) == 31,
        days_in_month(year, 11) == 30,
        days_in_month(year, 12) == 31,
        day_number(year, 12, 31) + 1 == day_number(year + 1, 1, 1),
{
    lemma_year_length(year);
    lemma_month_starts(year);
}

proof fn lemma_year_length(year: int)
    ensures
        days_before_year(year + 1) - days_before_year(year) == (if is_leap(year) {
            366int
        } else {
            365
        }),
{
}

proof fn lemma_years_apart(a: int, b: int)
    requires
        a < b,
    ensures
        days_before_year(b) >= days_before_year(a + 1),
    decreases b - a,
{
    if a + 1 < b {
        lemma_years_apart(a, b - 1);
        lemma_year_length(b - 1);
    }
}

/// A date that does not lie before the first of January 1970 lies in 1970 or later.
pub proof fn lemma_after_epoch(year: int, month: int, day: int)
    requires
        is_date(year, month, day),
        day_number(year, month, day) >= 0,
    ensures
        year >= 1970,
{
    lemma_month_starts(year);
    lemma_year_length(year);
    if year < 1970 {
        lemma_years_apart(year, 1970);
    }
}

proof fn lemma_month_starts(year: int)
    ensures
        ({
            let leap = if is_leap(year) {
                1int
            } else {
                0
            };
            &&& days_before_month(year, 1) == 0
            &&& days_before_month(year, 2) == 31
            &&& days_before_month(year, 3) == 59 + leap
            &&& days_before_month(year, 4) == 90 + leap
            &&& days_before_month(year, 5) == 120 + leap
            &&& days_before_month(year, 6) == 151 + leap
            &&& days_before_month(year, 7) == 181 + leap
            &&& days_before_month(year, 8) == 212 + leap
            &&& days_before_month(year, 9) == 243 + leap
            &&& days_before_month(year, 10) == 273 + leap
            &&& days_before_month(year, 11) == 304 + leap
            &&& days_before_month(year, 12) == 334 + leap
        }),
{
    reveal_with_fuel(days_before_month, 13);
}

/// The days of an era of 400 years, counted from the first of March, before its year `yoe`.
spec fn era_days(yoe: int) -> int {
    365 * yoe + yoe / 4 - yoe / 100
}

proof fn lemma_year_of_era(doe: int)
    requires
        0 <= doe <= 146096,
    ensures
        ({
            let yoe = (doe - doe / 1460 + doe / 36524 - doe / 146096) / 365;
            &&& 0 <= yoe <= 399
            &&& era_days(yoe) <= doe
            &&& doe - era_days(yoe) <= 364 || (doe - era_days(yoe) == 365 && (yoe + 1) % 4 == 0
                && ((yoe + 1) % 100 != 0 || yoe == 399))
        }),
{
}

/// The month and day of a day of the year that starts with March.
proof fn lemma_month_of_year(doy: int)
    requires
        0 <= doy <= 365,
    ensures
        ({
            let mp = (5 * doy + 2) / 153;
            let start = (153 * mp + 2) / 5;
            &&& 0 <= mp <= 11
            &&& start <= doy
            &&& mp == 0 ==> start == 0 && doy < 31
            &&& mp == 1 ==> start == 31 && doy < 61
            &&& mp == 2 ==> start == 61 && doy < 92
            &&& mp == 3 ==> start == 92 && doy < 122
            &&& mp == 4 ==> start == 122 && doy < 153
            &&& mp == 5 ==> start == 153 && doy < 184
            &&& mp == 6 ==> start == 184 && doy < 214
            &&& mp == 7 ==> start == 214 && doy < 245
            &&& mp == 8 ==> start == 245 && doy < 275
            &&& mp == 9 ==> start == 275 && doy < 306
            &&& mp == 10 ==> start == 306 && doy < 337
            &&& mp == 11 ==> start == 337
        }),
{
}

/// The year of a day of an era, and the days before it.
proof fn lemma_year(era: int, yoe: int)
    requires
        0 <= yoe <= 399,
    ensures
        days_before_year(yoe + era * 400 + 1) == era * 146097 + era_days(yoe),
        is_leap(yoe + era * 400 + 1) <==> (yoe + 1) % 4 == 0 && ((yoe + 1) % 100 != 0 || yoe
            == 399),
{
    let base = yoe + era * 400;
    assert(base / 4 == yoe / 4 + 100 * era);
    assert(base / 100 == yoe / 100 + 4 * era);
    assert(base / 400 == era);
    assert((base + 1) % 4 == (yoe + 1) % 4);
    assert((base + 1) % 100 == (yoe + 1) % 100);
    assert((base + 1) % 400 == (yoe + 1) % 400);
}

/// A day of the year that starts with March of `base`, by the days before the year `base + 1`.
proof fn lemma_date(base: int, doy: int)
    requires
        0 <= doy <= 365,
        doy == 365 ==> is_leap(base + 1),
    ensures
        ({
            let mp = (5 * doy + 2) / 153;
            let day = doy - (153 * mp + 2) / 5 + 1;
            let month = if mp < 10 {
                mp + 3
            } else {
                mp - 9
            };
            let year = if month <= 2 {
                base + 1
            } else {
                base
            };
            &&& is_date(year, month, day)
            &&& day_number(year, month, day) == days_before_year(base + 1) + doy - 719468
        }),
{
    lemma_month_of_year(doy);
    lemma_month_starts(base);
    lemma_month_starts(base + 1);
    lemma_year_length(base);
    assert(days_before_year(1970) == 719162);
    let mp = (5 * doy + 2) / 153;
    let month = if mp < 10 {
        mp + 3
    } else {
        mp - 9
    };
    if month <= 2 {
        assert(!is_leap(base + 1) ==> doy <= 364);
    }
}

/// The date of the day with number `z`: year, month and day.
pub fn epoch_days_to_ymd(z: i64) -> (date: (i64, u32, u32))
    requires
        z <= i64::MAX - 719468,
    ensures
        is_date(date.0 as int, date.1 as int, date.2 as int),
        day_number(date.0 as int, date.1 as int, date.2 as int) == z,
{
    let shifted: i64 = z + 719468;
    let era: i64 = if shifted >= 0 {
        shifted / 146097
    } else {
        -((146096 - shifted) / 146097)
    };
    let doe: u64 = (shifted - era * 146097) as u64;
    let yoe: u64 = (doe - doe / 1460 + doe / 36524 - doe / 146096) / 365;
    proof {
        lemma_year_of_era(doe as int);
    }
    let year: i64 = yoe as i64 + era * 400;
    let doy: u64 = doe - (365 * yoe + yoe / 4 - yoe / 100);
    proof {
        lemma_year(era as int, yoe as int);
        lemma_date(yoe as int + era as int * 400, doy as int);
        lemma_month_of_year(doy as int);
    }
    let mp: u64 = (5 * doy + 2) / 153;
    let day = (doy - (153 * mp + 2) / 5 + 1) as u32;
    let month: u32 = if mp < 10 {
        (mp + 3) as u32
    } else {
        (mp - 9) as u32
    };
    let year: i64 = if month <= 2 {
        year + 1
    } else {
        year
    };
    (year, month, day)
}

} // verus!
