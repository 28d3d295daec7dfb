//! Proleptic Gregorian calendar dates and their arithmetic.
//!
//! A [`Date`] is a plain (year, month, day) triple. The model covers years
//! 1 through 9999, enough room for any calendar a picker widget shows while
//! keeping every computation comfortably inside machine integers.
//!
//! The mathematical model is the day index: the number of days since
//! January 1 of year 1 (which is a Monday in the proleptic Gregorian
//! calendar). All ordering, weekday, and stepping specifications are stated
//! over that index.

use vstd::arithmetic::div_mod::lemma_fundamental_div_mod;
use vstd::arithmetic::div_mod::lemma_mod_bound;
use vstd::arithmetic::div_mod::lemma_fundamental_div_mod_converse;
use vstd::arithmetic::div_mod::lemma_mod_multiples_basic;
use vstd::prelude::*;

verus! {

/// Smallest year the model covers.
pub const MIN_YEAR: i32 = 1;

/// Largest year the model covers.
pub const MAX_YEAR: i32 = 9999;

/// A year is a leap year when it is divisible by 4, except centuries,
/// unless divisible by 400.
pub open spec fn is_leap_year(y: int) -> bool {
    (y % 4 == 0 && y % 100 != 0) || y % 400 == 0
}

/// Length of a month per the Gregorian calendar.
pub open spec fn days_in_month_of(y: int, m: int) -> int {
    if m == 2 {
        if is_leap_year(y) {
            29
        } else {
            28
        }
    } else if m == 4 || m == 6 || m == 9 || m == 11 {
        30
    } else {
        31
    }
}

/// Days from January 1 of year 1 up to January 1 of year `y`.
pub open spec fn days_before_year(y: int) -> int {
    365 * (y - 1) + (y - 1) / 4 - (y - 1) / 100 + (y - 1) / 400
}

/// Days from January 1 of year `y` up to the first of month `m` of year `y`.
pub open spec fn days_before_month(y: int, m: int) -> int
    decreases m,
{
    if m <= 1 {
        0
    } else {
        days_before_month(y, m - 1) + days_in_month_of(y, m - 1)
    }
}

/// A calendar date: year, month (1-12) and day of month (1-based).
#[derive(Clone, Copy, PartialEq, Eq, Structural, Debug)]
pub struct Date {
    pub year: i32,
    pub month: u32,
    pub day: u32,
}

impl Date {
    /// The date names a real day of the Gregorian calendar within the
    /// modelled year range.
    pub open spec fn valid(self) -> bool {
        &&& MIN_YEAR <= self.year <= MAX_YEAR
        &&& 1 <= self.month <= 12
        &&& 1 <= self.day <= days_in_month_of(self.year as int, self.month as int)
    }

    /// Number of days between January 1 of year 1 and this date.
    pub open spec fn day_index(self) -> int {
        days_before_year(self.year as int) + days_before_month(
            self.year as int,
            self.month as int,
        ) + self.day - 1
    }

    /// Strict calendar order: earlier year, or same year and earlier month,
    /// or same month and earlier day.
    pub open spec fn before(self, other: Date) -> bool {
        ||| self.year < other.year
        ||| (self.year == other.year && self.month < other.month)
        ||| (self.year == other.year && self.month == other.month && self.day < other.day)
    }

    /// Executable validity check, for hosts that receive dates from
    /// elsewhere.
    pub fn check_valid(&self) -> (r: bool)
        ensures
            r == self.valid(),
    {
        MIN_YEAR <= self.year && self.year <= MAX_YEAR && 1 <= self.month && self.month <= 12
            && 1 <= self.day && self.day <= days_in_month(self.year, self.month)
    }

    /// Executable strict comparison.
    pub fn is_before(&self, other: &Date) -> (r: bool)
        ensures
            r == self.before(*other),
    {
        if self.year != other.year {
            self.year < other.year
        } else if self.month != other.month {
            self.month < other.month
        } else {
            self.day < other.day
        }
    }
}

/// Whether `year` is a Gregorian leap year.
pub fn is_leap(year: i32) -> (r: bool)
    requires
        year >= 1,
    ensures
        r == is_leap_year(year as int),
{
    (year % 4 == 0 && year % 100 != 0) || year % 400 == 0
}

/// Number of days in the given month, 28 through 31.
pub fn days_in_month(year: i32, month: u32) -> (n: u32)
    requires
        year >= 1,
        1 <= month <= 12,
    ensures
        n == days_in_month_of(year as int, month as int),
        28 <= n <= 31,
{
    if month == 2 {
        if is_leap(year) {
            29
        } else {
            28
        }
    } else if month == 4 || month == 6 || month == 9 || month == 11 {
        30
    } else {
        31
    }
}

/// Day index of December 31 of the last modelled year: no valid date lies
/// beyond it.
pub open spec fn max_day_index() -> int {
    days_before_year(MAX_YEAR as int) + days_before_month(MAX_YEAR as int, 12) + 30
}

/// Stepping a quotient's numerator by one raises the quotient exactly at
/// the multiples of the divisor.
proof fn lemma_div_succ(x: int, d: int)
    requires
        d > 0,
    ensures
        x / d == (x - 1) / d + (if x % d == 0 {
            1int
        } else {
            0int
        }),
{
    let q = (x - 1) / d;
    let r = (x - 1) % d;
    lemma_fundamental_div_mod(x - 1, d);
    lemma_mod_bound(x - 1, d);
    if r == d - 1 {
        assert((q + 1) * d + 0 == d * q + r + 1) by (nonlinear_arith)
            requires
                r == d - 1,
        ;
        lemma_fundamental_div_mod_converse(x, d, q + 1, 0);
    } else {
        assert(q * d + (r + 1) == d * q + r + 1) by (nonlinear_arith);
        lemma_fundamental_div_mod_converse(x, d, q, r + 1);
    }
}

/// A full year holds 366 days when leap, 365 otherwise.
proof fn lemma_year_length(y: int)
    ensures
        days_before_month(y, 13) == if is_leap_year(y) {
            366int
        } else {
            365int
        },
{
    reveal_with_fuel(days_before_month, 13);
}

/// Crossing from year `y` to year `y + 1` advances the year prefix by the
/// length of year `y`.
proof fn lemma_days_before_year_next(y: int)
    requires
        y >= 1,
    ensures
        days_before_year(y + 1) == days_before_year(y) + days_before_month(y, 13),
{
    lemma_year_length(y);
    lemma_div_succ(y, 4);
    lemma_div_succ(y, 100);
    lemma_div_succ(y, 400);
    if y % 400 == 0 {
        lemma_fundamental_div_mod(y, 400);
        assert(y == 100 * (4 * (y / 400)));
        lemma_mod_multiples_basic(4 * (y / 400), 100);
    }
    if y % 100 == 0 {
        lemma_fundamental_div_mod(y, 100);
        assert(y == 4 * (25 * (y / 100)));
        lemma_mod_multiples_basic(25 * (y / 100), 4);
    }
}

/// The month prefix sum grows with the month, by at least the length of
/// each month passed over.
proof fn lemma_days_before_month_monotonic(y: int, m1: int, m2: int)
    requires
        1 <= m1 <= m2 <= 13,
    ensures
        days_before_month(y, m1) <= days_before_month(y, m2),
        m1 < m2 ==> days_before_month(y, m1) + days_in_month_of(y, m1) <= days_before_month(
            y,
            m2,
        ),
    decreases m2 - m1,
{
    if m1 < m2 {
        lemma_days_before_month_monotonic(y, m1 + 1, m2);
    }
}

/// Every day of a valid date falls inside its own year's span of the index.
proof fn lemma_day_index_in_year(d: Date)
    requires
        d.valid(),
    ensures
        days_before_year(d.year as int) <= d.day_index(),
        d.day_index() < days_before_year(d.year as int) + days_before_month(d.year as int, 13),
{
    lemma_days_before_month_monotonic(d.year as int, 1, d.month as int);
    lemma_days_before_month_monotonic(d.year as int, d.month as int, 13);
}

/// The year prefix grows with the year, by at least the length of each year
/// passed over.
proof fn lemma_days_before_year_monotonic(y1: int, y2: int)
    requires
        1 <= y1 <= y2,
    ensures
        days_before_year(y1) <= days_before_year(y2),
        y1 < y2 ==> days_before_year(y1) + days_before_month(y1, 13) <= days_before_year(y2),
    decreases y2 - y1,
{
    if y1 < y2 {
        lemma_days_before_year_next(y1);
        lemma_year_length(y1);
        lemma_days_before_year_monotonic(y1 + 1, y2);
    }
}

/// Calendar order of valid dates agrees with day-index order; in
/// particular the day index tells valid dates apart.
pub proof fn lemma_order_matches_day_index(a: Date, b: Date)
    requires
        a.valid(),
        b.valid(),
    ensures
        a.before(b) <==> a.day_index() < b.day_index(),
        a == b <==> a.day_index() == b.day_index(),
{
    if a.before(b) {
        lemma_order_one_sided(a, b);
    }
    if b.before(a) {
        lemma_order_one_sided(b, a);
    }
}

/// One direction of the order correspondence.
proof fn lemma_order_one_sided(a: Date, b: Date)
    requires
        a.valid(),
        b.valid(),
        a.before(b),
    ensures
        a.day_index() < b.day_index(),
{
    let ya = a.year as int;
    let yb = b.year as int;
    if a.year < b.year {
        lemma_day_index_in_year(a);
        lemma_day_index_in_year(b);
        lemma_days_before_year_monotonic(ya, yb);
    } else if a.month < b.month {
        lemma_days_before_month_monotonic(ya, a.month as int, b.month as int);
    }
}

/// The first day of the month after the one `d` lies in, rolling December
/// into January of the next year.
pub open spec fn next_month_first(d: Date) -> Date {
    if d.month == 12 {
        Date { year: (d.year + 1) as i32, month: 1u32, day: 1u32 }
    } else {
        Date { year: d.year, month: (d.month + 1) as u32, day: 1u32 }
    }
}

/// The first of the next month lies exactly one month's length past the
/// first of the current month, also across a December-to-January rollover.
pub proof fn lemma_month_span(d: Date)
    requires
        d.valid(),
        d.day == 1,
        d.month < 12 || d.year < MAX_YEAR,
    ensures
        next_month_first(d).valid(),
        next_month_first(d).day_index() == d.day_index() + days_in_month_of(
            d.year as int,
            d.month as int,
        ),
{
    if d.month == 12 {
        lemma_year_length(d.year as int);
        lemma_days_before_year_next(d.year as int);
    }
}

/// Every valid date's index lies between the first and the last modelled
/// day; past the first year it lies at least a full year in, and past the
/// first month at least a full month in.
pub proof fn lemma_day_index_bounds(d: Date)
    requires
        d.valid(),
    ensures
        0 <= d.day_index() <= max_day_index(),
        d.year > MIN_YEAR ==> d.day_index() >= 365,
        d.month > 1 ==> d.day_index() >= 31,
{
    lemma_day_index_in_year(d);
    lemma_days_before_year_monotonic(1, d.year as int);
    if d.year > MIN_YEAR {
        lemma_days_before_year_monotonic(2, d.year as int);
    }
    if d.month > 1 {
        assert(days_before_month(d.year as int, 1) == 0);
        assert(days_before_month(d.year as int, 2) == 31);
        lemma_days_before_month_monotonic(d.year as int, 2, d.month as int);
    }
    if d.year < MAX_YEAR {
        lemma_days_before_year_next(d.year as int);
        lemma_days_before_year_monotonic(d.year as int + 1, MAX_YEAR as int);
        lemma_days_before_month_monotonic(MAX_YEAR as int, 1, 12);
    } else {
        lemma_year_length(MAX_YEAR as int);
    }
}

/// The calendar successor of a date: the date one day later.
pub fn next_day(d: &Date) -> (r: Date)
    requires
        d.valid(),
        d.day_index() < max_day_index(),
    ensures
        r.valid(),
        r.day_index() == d.day_index() + 1,
{
    let dim = days_in_month(d.year, d.month);
    if d.day < dim {
        Date { year: d.year, month: d.month, day: d.day + 1 }
    } else if d.month < 12 {
        Date { year: d.year, month: d.month + 1, day: 1 }
    } else {
        proof {
            lemma_year_length(d.year as int);
            lemma_days_before_year_next(d.year as int);
            if d.year == MAX_YEAR {
                assert(d.day_index() == max_day_index());
            }
        }
        Date { year: d.year + 1, month: 1, day: 1 }
    }
}

/// The calendar predecessor of a date: the date one day earlier.
pub fn prev_day(d: &Date) -> (r: Date)
    requires
        d.valid(),
        d.day_index() > 0,
    ensures
        r.valid(),
        r.day_index() == d.day_index() - 1,
{
    if d.day > 1 {
        Date { year: d.year, month: d.month, day: d.day - 1 }
    } else if d.month > 1 {
        let dim = days_in_month(d.year, d.month - 1);
        Date { year: d.year, month: d.month - 1, day: dim }
    } else {
        proof {
            assert(days_before_month(d.year as int, 1) == 0);
            if d.year == MIN_YEAR {
                assert(d.day_index() == 0);
            }
            lemma_year_length(d.year as int - 1);
            lemma_days_before_year_next(d.year as int - 1);
        }
        Date { year: d.year - 1, month: 12, day: 31 }
    }
}

/// Advance (or rewind) a date by a whole number of days.
pub fn add_days(d: &Date, delta: i64) -> (r: Date)
    requires
        d.valid(),
        0 <= d.day_index() + delta <= max_day_index(),
    ensures
        r.valid(),
        r.day_index() == d.day_index() + delta,
{
    let mut cur: Date = *d;
    if delta >= 0 {
        let mut i: i64 = 0;
        while i < delta
            invariant
                cur.valid(),
                0 <= i <= delta,
                cur.day_index() == d.day_index() + i,
                d.day_index() + delta <= max_day_index(),
            decreases delta - i,
        {
            cur = next_day(&cur);
            i = i + 1;
        }
    } else {
        let mut i: i64 = 0;
        while i > delta
            invariant
                cur.valid(),
                delta <= i <= 0,
                cur.day_index() == d.day_index() + i,
                0 <= d.day_index() + delta,
            decreases i - delta,
        {
            cur = prev_day(&cur);
            i = i - 1;
        }
    }
    cur
}

/// The day index of a date, as a machine integer.
pub fn day_number(d: &Date) -> (n: u32)
    requires
        d.valid(),
    ensures
        n == d.day_index(),
        n < 4000000,
{
    let mut before_month: u32 = 0;
    let mut m: u32 = 1;
    while m < d.month
        invariant
            d.valid(),
            1 <= m <= d.month,
            before_month == days_before_month(d.year as int, m as int),
            before_month <= 31 * (m - 1),
        decreases d.month - m,
    {
        before_month = before_month + days_in_month(d.year, m);
        m = m + 1;
    }
    let yy: u32 = (d.year - 1) as u32;
    let before_year: u32 = 365 * yy + yy / 4 - yy / 100 + yy / 400;
    before_year + before_month + (d.day - 1)
}

/// Weekday of a date, counted from Monday: Monday is 0, Sunday is 6.
pub open spec fn weekday_from_monday_of(d: Date) -> int {
    d.day_index() % 7
}

/// Weekday of a date, counted from Sunday: Sunday is 0, Saturday is 6.
pub open spec fn weekday_from_sunday_of(d: Date) -> int {
    (d.day_index() + 1) % 7
}

/// Executable weekday counted from Monday.
pub fn weekday_from_monday(d: &Date) -> (w: u32)
    requires
        d.valid(),
    ensures
        w == weekday_from_monday_of(*d),
        w < 7,
{
    day_number(d) % 7
}

/// Executable weekday counted from Sunday.
pub fn weekday_from_sunday(d: &Date) -> (w: u32)
    requires
        d.valid(),
    ensures
        w == weekday_from_sunday_of(*d),
        w < 7,
{
    (day_number(d) + 1) % 7
}

/// The default weekend rule: Saturday or Sunday.
pub open spec fn standard_weekend_of(d: Date) -> bool {
    weekday_from_monday_of(d) == 5 || weekday_from_monday_of(d) == 6
}

/// Whether the date falls on a Saturday or a Sunday.
pub fn is_standard_weekend(d: &Date) -> (r: bool)
    requires
        d.valid(),
    ensures
        r == standard_weekend_of(*d),
{
    let w = weekday_from_monday(d);
    w == 5 || w == 6
}

} // verus!
