//! The calendar: which day of the week a date is.
use vstd::prelude::*;

verus! {

/// Whether a year has a leap day.
pub open spec fn leap(year: int) -> bool {
    year % 4 == 0 && (year % 100 != 0 || year % 400 == 0)
}

/// How many days a month has.
pub open spec fn month_days(year: int, month: int) -> int {
    if month == 2 {
        if leap(year) {
            29
        } else {
            28
        }
    } else if month == 4 || month == 6 || month == 9 || month == 11 {
        30
    } else {
        31
    }
}

/// Whether there is such a day in the calendar.
pub open spec fn is_date(year: int, month: int, day: int) -> bool {
    1 <= month <= 12 && 1 <= day <= month_days(year, month)
}

/// The days of a year before a month.
pub open spec fn days_before_month(year: int, month: int) -> int
    decreases month,
{
    if month <= 1 {
        0
    } else {
        days_before_month(year, month - 1) + month_days(year, month - 1)
    }
}

/// The days from the first day of year 1 to the first day of a year.
pub open spec fn days_before_year(year: int) -> int {
    365 * (year - 1) + (year - 1) / 4 - (year - 1) / 100 + (year - 1) / 400
}

/// The days from the first day of year 1, which was a Monday, to a date.
pub open spec fn day_number(year: int, month: int, day: int) -> int {
    days_before_year(year) + days_before_month(year, month) + day - 1
}

/// The day of the week, counted from Monday.
pub open spec fn weekday_of(year: int, month: int, day: int) -> int {
    day_number(year, month, day) % 7
}

/// Whether a year has a leap day, of a year from 1 on.
fn is_leap(year: u64) -> (r: bool)
    ensures
        r == leap(year as int),
{
    year % 4 == 0 && (year % 100 != 0 || year % 400 == 0)
}

/// How many days a month has.
fn days_in_month(year: u64, month: u32) -> (r: u64)
    ensures
        r == month_days(year as int, month as int),
        28 <= r <= 31,
{
    if month == 2 {
        if is_leap(year) {
            29
        } else {
            28
        }
    } else if month == 4 || month == 6 || month == 9 || month == 11 {
        30
    } else {
        31
    }
}

/// Two thousand years on, years have the same length.
proof fn lemma_cycle_of_leaps(year: int)
    ensures
        leap(year + 2000) == leap(year),
{
    assert((year + 2000) % 4 == year % 4);
    assert((year + 2000) % 100 == year % 100);
    assert((year + 2000) % 400 == year % 400);
}

/// Two thousand years have a whole number of weeks.
proof fn lemma_cycle_of_years(year: int)
    ensures
        days_before_year(year + 2000) == days_before_year(year) + 730485,
{
    let y = year - 1;
    assert((y + 2000) / 4 == y / 4 + 500);
    assert((y + 2000) / 100 == y / 100 + 20);
    assert((y + 2000) / 400 == y / 400 + 5);
}

/// Two thousand years on, months begin at the same place in the year.
proof fn lemma_cycle_of_months(year: int, month: int)
    ensures
        days_before_month(year + 2000, month) == days_before_month(year, month),
    decreases month,
{
    if month > 1 {
        lemma_cycle_of_leaps(year);
        lemma_cycle_of_months(year, month - 1);
    }
}

/// The day of the week of a date, counted from Monday; nothing for what is no
/// date.
pub fn weekday(year: i64, month: u32, day: u32) -> (r: Option<u8>)
    requires
        -1999 <= year <= 1_000_000,
    ensures
        r is Some <==> is_date(year as int, month as int, day as int),
        r matches Some(d) ==> d == weekday_of(year as int, month as int, day as int),
{
    let y: u64 = (year + 2000) as u64;
    proof {
        lemma_cycle_of_leaps(year as int);
        lemma_cycle_of_years(year as int);
        lemma_cycle_of_months(year as int, month as int);
    }
    if month < 1 || month > 12 || day < 1 || day as u64 > days_in_month(y, month) {
        return None;
    }
    let mut total: u64 = 365 * (y - 1) + (y - 1) / 4 - (y - 1) / 100 + (y - 1) / 400;
    let ghost base = total;
    let mut m: u32 = 1;
    while m < month
        invariant
            1 <= m <= month <= 12,
            base <= 400_000_000,
            total == base + days_before_month(y as int, m as int),
            total <= base + 31 * (m - 1),
            base <= total,
        decreases month - m,
    {
        total = total + days_in_month(y, m);
        m = m + 1;
    }
    total = total + day as u64 - 1;
    assert(total == day_number(year as int, month as int, day as int) + 730485);
    assert(730485 == 7 * 104355);
    Some((total % 7) as u8)
}

/// The day after a date.
pub open spec fn next_day(year: int, month: int, day: int) -> (int, int, int) {
    if day < month_days(year, month) {
        (year, month, day + 1)
    } else if month < 12 {
        (year, month + 1, 1)
    } else {
        (year + 1, 1, 1)
    }
}

/// How many days a year has.
proof fn lemma_days_of_year(year: int)
    ensures
        days_before_year(year + 1) - days_before_year(year) == if leap(year) {
            366int
        } else {
            365int
        },
{
    assert(year / 4 - (year - 1) / 4 == if year % 4 == 0 {
        1int
    } else {
        0int
    });
    assert(year / 100 - (year - 1) / 100 == if year % 100 == 0 {
        1int
    } else {
        0int
    });
    assert(year / 400 - (year - 1) / 400 == if year % 400 == 0 {
        1int
    } else {
        0int
    });
    assert(year % 400 == 0 ==> year % 100 == 0);
    assert(year % 100 == 0 ==> year % 4 == 0);
}

/// The months of a year have as many days as the year.
proof fn lemma_days_of_months(year: int)
    ensures
        days_before_month(year, 12) + 31 == if leap(year) {
            366int
        } else {
            365int
        },
{
    reveal_with_fuel(days_before_month, 13);
}

/// Days of the week come round.
proof fn lemma_next_weekday(n: int)
    ensures
        (n + 1) % 7 == (n % 7 + 1) % 7,
{
}

/// The days of the week follow one another, over the ends of months and years.
pub proof fn law_weekdays_follow(year: int, month: int, day: int)
    requires
        is_date(year, month, day),
    ensures
        ({
            let (y, m, d) = next_day(year, month, day);
            &&& is_date(y, m, d)
            &&& day_number(y, m, d) == day_number(year, month, day) + 1
            &&& weekday_of(y, m, d) == (weekday_of(year, month, day) + 1) % 7
        }),
{
    let (y, m, d) = next_day(year, month, day);
    if day == month_days(year, month) {
        if month < 12 {
            assert(days_before_month(year, month + 1) == days_before_month(year, month)
                + month_days(year, month));
        } else {
            lemma_days_of_year(year);
            lemma_days_of_months(year);
            assert(days_before_month(year + 1, 1) == 0);
        }
    }
    assert(day_number(y, m, d) == day_number(year, month, day) + 1);
    lemma_next_weekday(day_number(year, month, day));
}

/// The days of the week, as they are written.
pub open spec fn day_name(d: int) -> Seq<char> {
    if d == 0 {
        "Mon"@
    } else if d == 1 {
        "Tue"@
    } else if d == 2 {
        "Wed"@
    } else if d == 3 {
        "Thu"@
    } else if d == 4 {
        "Fri"@
    } else if d == 5 {
        "Sat"@
    } else {
        "Sun"@
    }
}

/// The name of a day of the week, counted from Monday.
pub fn day_abbreviation(d: u8) -> (r: &'static str)
    ensures
        r@ == day_name(d as int),
{
    if d == 0 {
        "Mon"
    } else if d == 1 {
        "Tue"
    } else if d == 2 {
        "Wed"
    } else if d == 3 {
        "Thu"
    } else if d == 4 {
        "Fri"
    } else if d == 5 {
        "Sat"
    } else {
        "Sun"
    }
}

/// The calendar: which months have how many days. February has one more in
/// every fourth year, but not in three of four years that end a century.
pub proof fn law_lengths_of_months(year: int, month: int)
    requires
        1 <= month <= 12,
    ensures
        month == 2 ==> month_days(year, month) == if year % 400 == 0 || year % 4 == 0 && year % 100
            != 0 {
            29int
        } else {
            28int
        },
        month == 4 || month == 6 || month == 9 || month == 11 ==> month_days(year, month) == 30,
        month != 2 && month != 4 && month != 6 && month != 9 && month != 11 ==> month_days(
            year,
            month,
        ) == 31,
{
}

/// A year has as many days as its months: 365, and one more with a 29th of
/// February.
pub proof fn law_lengths_of_years(year: int)
    ensures
        day_number(year + 1, 1, 1) - day_number(year, 1, 1) == 337 + month_days(year, 2),
{
    lemma_days_of_year(year);
    lemma_first_of_january(year);
    lemma_first_of_january(year + 1);
}

/// A year begins on its first of January.
proof fn lemma_first_of_january(year: int)
    ensures
        day_number(year, 1, 1) == days_before_year(year),
{
    assert(days_before_month(year, 1) == 0);
}

/// Days of the week repeat every seven days and have seven different names,
/// Monday to Sunday; from the first of January of 1970, a Thursday, every date
/// is as many days of the week away as it is days away.
pub proof fn law_days_of_the_week(year: int, month: int, day: int)
    ensures
        0 <= weekday_of(year, month, day) < 7,
        weekday_of(year, month, day) == (3 + (day_number(year, month, day) - day_number(
            1970,
            1,
            1,
        ))) % 7,
        day_name(0) == "Mon"@,
        day_name(1) == "Tue"@,
        day_name(2) == "Wed"@,
        day_name(3) == "Thu"@,
        day_name(4) == "Fri"@,
        day_name(5) == "Sat"@,
        day_name(6) == "Sun"@,
{
    assert(day_number(1970, 1, 1) == 719162);
    assert(719162int % 7 == 3);
}

} // verus!
