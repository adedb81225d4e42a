//! Dates of the Gregorian calendar.

use vstd::prelude::*;

verus! {

pub open spec fn leap(year: int) -> bool {
    year % 4 == 0 && (year % 100 != 0 || year % 400 == 0)
}

/// Days from the start of year 0 to the start of `year`.
pub open spec fn days_before_year(year: int) -> int {
    365 * year + (year + 3) / 4 - (year + 99) / 100 + (year + 399) / 400
}

pub open spec fn month_length(year: int, month: int) -> int {
    if month == 2 {
        if leap(year) {
            29
        } else {
            28
        }
    } else if month == 4 || month == 6 || month == 9 || month == 11 {
        30
    } else {
        31
    }
}

/// Days from the start of `year` to the start of `month`.
pub open spec fn days_before_month(year: int, month: int) -> int
    decreases month,
{
    if month <= 1 {
        0
    } else {
        days_before_month(year, month - 1) + month_length(year, month - 1)
    }
}

pub open spec fn valid_date(year: int, month: int, day: int) -> bool {
    1 <= month <= 12 && 1 <= day <= month_length(year, month)
}

/// Days from 1 January 1970 to the given date.
pub open spec fn day_number(year: int, month: int, day: int) -> int {
    days_before_year(year) - days_before_year(1970) + days_before_month(year, month) + day - 1
}

proof fn month_table(year: int)
    ensures
        days_before_month(year, 1) == 0,
        days_before_month(year, 2) == 31,
        forall|m: int|
            3 <= m <= 12 ==> #[trigger] days_before_month(year, m) == (153 * (m - 3) + 2) / 5 + 59
                + (if leap(year) {
                1int
            } else {
                0
            }),
{
    reveal_with_fuel(days_before_month, 13);
    assert(days_before_month(year, 3) == 59 + (if leap(year) {
        1int
    } else {
        0
    }));
    assert forall|m: int| 3 <= m <= 12 implies #[trigger] days_before_month(year, m) == (153 * (m
        - 3) + 2) / 5 + 59 + (if leap(year) {
        1int
    } else {
        0
    }) by {
        assert(m == 3 || m == 4 || m == 5 || m == 6 || m == 7 || m == 8 || m == 9 || m == 10 || m
            == 11 || m == 12);
    }
}

/// Years and days of an era of 400 years that starts with a March.
proof fn year_of_era(doe: int)
    requires
        0 <= doe < 146_097,
    ensures
        ({
            let yoe = (doe - doe / 1460 + doe / 36_524 - doe / 146_096) / 365;
            let doy = doe - (365 * yoe + yoe / 4 - yoe / 100);
            &&& 0 <= yoe < 400
            &&& 0 <= doy
            &&& doy <= 365
            &&& doy == 365 ==> leap(yoe + 1)
        }),
{
    let yoe = (doe - doe / 1460 + doe / 36_524 - doe / 146_096) / 365;
    let century = doe / 36_524;
    assert(0 <= century <= 4);
    if century == 0 {
    } else if century == 1 {
    } else if century == 2 {
    } else if century == 3 {
    } else {
    }
}

proof fn by_fours(year: int)
    ensures
        (year + 3) / 4 == year / 4 + (if year % 4 == 0 {
            0int
        } else {
            1
        }),
        (year + 4) / 4 == year / 4 + 1,
{
}

proof fn by_hundreds(year: int)
    ensures
        (year + 99) / 100 == year / 100 + (if year % 100 == 0 {
            0int
        } else {
            1
        }),
        (year + 100) / 100 == year / 100 + 1,
        year % 100 == 0 ==> year % 4 == 0,
{
}

proof fn by_four_hundreds(year: int)
    ensures
        (year + 399) / 400 == year / 400 + (if year % 400 == 0 {
            0int
        } else {
            1
        }),
        (year + 400) / 400 == year / 400 + 1,
        year % 400 == 0 ==> year % 100 == 0,
{
}

proof fn leap_days(year: int)
    ensures
        days_before_year(year) + (if leap(year) {
            1int
        } else {
            0
        }) == 365 * year + year / 4 - year / 100 + year / 400 + 1,
        days_before_year(year + 1) == 365 * (year + 1) + year / 4 - year / 100 + year / 400 + 1,
{
    by_fours(year);
    by_hundreds(year);
    by_four_hundreds(year);
    let fours = year / 4;
    let hundreds = year / 100;
    let eras = year / 400;
    assert((year + 1) + 3 == year + 4);
    assert((year + 1) + 99 == year + 100);
    assert((year + 1) + 399 == year + 400);
}

proof fn shift_fours(yoe: int, era: int)
    ensures
        (yoe + era * 400) / 4 == yoe / 4 + era * 100,
        (yoe + era * 400) % 4 == yoe % 4,
{
}

proof fn shift_hundreds(yoe: int, era: int)
    ensures
        (yoe + era * 400) / 100 == yoe / 100 + era * 4,
        (yoe + era * 400) % 100 == yoe % 100,
{
}

proof fn shift_eras(yoe: int, era: int)
    ensures
        (yoe + era * 400) / 400 == yoe / 400 + era,
        (yoe + era * 400) % 400 == yoe % 400,
{
}

/// The first of March of a year, counted within its era.
proof fn march_first(era: int, yoe: int)
    requires
        0 <= yoe < 400,
    ensures
        ({
            let year = yoe + era * 400;
            &&& day_number(year, 3, 1) == era * 146_097 + (365 * yoe + yoe / 4 - yoe / 100)
                - 719_468
            &&& day_number(year + 1, 1, 1) == day_number(year, 3, 1) + 306
            &&& leap(yoe + 1) ==> leap(year + 1)
        }),
{
    let year = yoe + era * 400;
    leap_days(year);
    month_table(year);
    month_table(year + 1);
    assert(days_before_month(year, 3) == 59 + (if leap(year) {
        1int
    } else {
        0
    }));
    shift_fours(yoe, era);
    shift_hundreds(yoe, era);
    shift_eras(yoe, era);
    assert(year + 1 == (yoe + 1) + era * 400);
    shift_fours(yoe + 1, era);
    shift_hundreds(yoe + 1, era);
    shift_eras(yoe + 1, era);
    assert(days_before_year(1970) == 719_528);
    assert(yoe / 400 == 0);
}

/// Month and day of a day of a year that starts with March.
proof fn month_of_march_year(year: int, doy: int)
    requires
        0 <= doy <= 365,
        doy == 365 ==> leap(year + 1),
    ensures
        ({
            let mp = (5 * doy + 2) / 153;
            let day = doy - (153 * mp + 2) / 5 + 1;
            &&& 0 <= mp <= 11
            &&& mp < 10 ==> valid_date(year, mp + 3, day) && day_number(year, mp + 3, day)
                == day_number(year, 3, 1) + doy
            &&& mp >= 10 ==> valid_date(year + 1, mp - 9, day) && day_number(
                year + 1,
                mp - 9,
                day,
            ) == day_number(year + 1, 1, 1) + doy - 306
        }),
{
    let mp = (5 * doy + 2) / 153;
    month_table(year);
    month_table(year + 1);
    assert(mp == 0 || mp == 1 || mp == 2 || mp == 3 || mp == 4 || mp == 5 || mp == 6 || mp == 7
        || mp == 8 || mp == 9 || mp == 10 || mp == 11);
}

/// Rounds towards minus infinity.
fn div_floor(a: i64, b: i64) -> (q: i64)
    requires
        b > 0,
        a > i64::MIN,
    ensures
        q == a as int / b as int,
{
    if a >= 0 {
        a / b
    } else {
        let up: i64 = -1 - a;
        proof {
            assert(-1 - (up as int) / (b as int) == a as int / b as int) by (nonlinear_arith)
                requires
                    up == -1 - a,
                    b > 0,
                    up >= 0,
            ;
        }
        -1 - up / b
    }
}

/// The date that lies `z` days after 1 January 1970.
pub fn civil_from_days(z: i64) -> (r: (i64, u32, u32))
    requires
        z <= i64::MAX - 719_468,
    ensures
        valid_date(r.0 as int, r.1 as int, r.2 as int),
        day_number(r.0 as int, r.1 as int, r.2 as int) == z,
{
    let shifted: i64 = z + 719_468;
    let era: i64 = div_floor(shifted, 146_097);
    let doe: i64 = shifted - era * 146_097;
    let yoe: i64 = (doe - doe / 1460 + doe / 36_524 - doe / 146_096) / 365;
    proof {
        year_of_era(doe as int);
    }
    let march_year: i64 = yoe + era * 400;
    let doy: i64 = doe - (365 * yoe + yoe / 4 - yoe / 100);
    let mp: i64 = (5 * doy + 2) / 153;
    let day: i64 = doy - (153 * mp + 2) / 5 + 1;
    let month: i64 = if mp < 10 {
        mp + 3
    } else {
        mp - 9
    };
    let year: i64 = if month <= 2 {
        march_year + 1
    } else {
        march_year
    };
    proof {
        march_first(era as int, yoe as int);
        month_of_march_year(march_year as int, doy as int);
    }
    (year, month as u32, day as u32)
}

proof fn years_ascend(first: int, second: int)
    requires
        first < second,
    ensures
        days_before_year(first) + 365 + (if leap(first) {
            1int
        } else {
            0
        }) <= days_before_year(second),
    decreases second - first,
{
    leap_days(first);
    leap_days(second - 1);
    if first < second - 1 {
        years_ascend(first, second - 1);
    }
}

proof fn day_of_year_bounds(year: int, month: int, day: int)
    requires
        valid_date(year, month, day),
    ensures
        0 <= days_before_month(year, month) + day - 1 < 365 + (if leap(year) {
            1int
        } else {
            0
        }),
{
    month_table(year);
    assert(month == 1 || month == 2 || month == 3 || month == 4 || month == 5 || month == 6 || month
        == 7 || month == 8 || month == 9 || month == 10 || month == 11 || month == 12);
}

proof fn months_ascend(year: int, first: int, second: int)
    requires
        1 <= first < second <= 12,
    ensures
        days_before_month(year, first) + month_length(year, first) <= days_before_month(
            year,
            second,
        ),
    decreases second - first,
{
    if first < second - 1 {
        months_ascend(year, first, second - 1);
    }
}

/// Day numbers count up from 1970: none of its days or later has a negative one.
pub proof fn days_count_from_1970(year: int, month: int, day: int)
    requires
        valid_date(year, month, day),
    ensures
        day_number(year, month, day) >= 0 <==> year >= 1970,
{
    day_of_year_bounds(year, month, day);
    if year < 1970 {
        years_ascend(year, 1970);
    } else if year > 1970 {
        years_ascend(1970, year);
    }
}

/// No two dates have the same day number.
pub proof fn dates_are_unique(y1: int, m1: int, d1: int, y2: int, m2: int, d2: int)
    requires
        valid_date(y1, m1, d1),
        valid_date(y2, m2, d2),
        day_number(y1, m1, d1) == day_number(y2, m2, d2),
    ensures
        y1 == y2 && m1 == m2 && d1 == d2,
{
    day_of_year_bounds(y1, m1, d1);
    day_of_year_bounds(y2, m2, d2);
    if y1 < y2 {
        years_ascend(y1, y2);
    } else if y2 < y1 {
        years_ascend(y2, y1);
    } else if m1 < m2 {
        months_ascend(y1, m1, m2);
    } else if m2 < m1 {
        months_ascend(y1, m2, m1);
    }
}

/// Every fourth year is a leap year but for the full centuries, of which only every fourth is.
pub proof fn leap_years(year: int)
    ensures
        year % 4 != 0 ==> !leap(year),
        year % 4 == 0 && year % 100 != 0 ==> leap(year),
        year % 100 == 0 && year % 400 != 0 ==> !leap(year),
        year % 400 == 0 ==> leap(year),
{
}

/// The months have 31 days but for four of 30, and for February.
pub proof fn lengths_of_months(year: int)
    ensures
        month_length(year, 1) == 31 && month_length(year, 3) == 31 && month_length(year, 5) == 31
            && month_length(year, 7) == 31 && month_length(year, 8) == 31 && month_length(year, 10)
            == 31 && month_length(year, 12) == 31,
        month_length(year, 4) == 30 && month_length(year, 6) == 30 && month_length(year, 9) == 30
            && month_length(year, 11) == 30,
        month_length(year, 2) == if leap(year) {
            29int
        } else {
            28int
        },
{
}

/// Day numbers go up by one from day to day, over the end of a month and of a year too, and
/// begin with nought on 1 January 1970. A date is one of the twelve months and a day that the
/// month has.
pub proof fn days_follow_one_another(year: int, month: int, day: int)
    ensures
        day_number(1970, 1, 1) == 0,
        day_number(year, month, day + 1) == day_number(year, month, day) + 1,
        1 <= month < 12 ==> day_number(year, month + 1, 1) == day_number(
            year,
            month,
            month_length(year, month),
        ) + 1,
        day_number(year + 1, 1, 1) == day_number(year, 12, 31) + 1,
        valid_date(year, month, day) <==> 1 <= month <= 12 && 1 <= day && day <= month_length(
            year,
            month,
        ),
{
    month_table(year);
    month_table(year + 1);
    month_table(1970);
    leap_days(year);
    if 1 <= month < 12 {
        assert(days_before_month(year, month + 1) == days_before_month(year, month) + month_length(
            year,
            month,
        ));
    }
    assert(days_before_month(year, 12) == 334 + (if leap(year) {
        1int
    } else {
        0
    }));
}

} // verus!
