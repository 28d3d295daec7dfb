//! Month-grid construction for the calendar view.
//!
//! A month is shown as whole weeks: leading filler days from the previous
//! month, every day of the target month, and trailing filler days from the
//! next month. The grid is a run of consecutive dates whose length is a
//! multiple of seven.

use crate::date::days_in_month;
use crate::date::days_in_month_of;
use crate::date::lemma_day_index_bounds;
use crate::date::lemma_month_span;
use crate::date::lemma_order_matches_day_index;
use crate::date::max_day_index;
use crate::date::next_day;
use crate::date::next_month_first;
use crate::date::add_days;
use crate::date::weekday_from_monday;
use crate::date::weekday_from_monday_of;
use crate::date::weekday_from_sunday;
use crate::date::weekday_from_sunday_of;
use crate::date::Date;
use crate::date::MAX_YEAR;
use crate::date::MIN_YEAR;
use vstd::arithmetic::div_mod::lemma_fundamental_div_mod;
use vstd::arithmetic::div_mod::lemma_mod_bound;
use vstd::arithmetic::div_mod::lemma_mod_multiples_basic;
use vstd::prelude::*;

verus! {

/// Days between the configured week start and the weekday of `d`.
pub open spec fn start_offset_of(d: Date, sunday_first: bool) -> int {
    if sunday_first {
        weekday_from_sunday_of(d)
    } else {
        weekday_from_monday_of(d)
    }
}

/// Trailing filler needed after a month whose successor month starts on the
/// weekday with offset `start_offset_of(d, sunday_first)`.
pub open spec fn end_offset_of(d: Date, sunday_first: bool) -> int {
    (7 - start_offset_of(d, sunday_first)) % 7
}

/// Number of days between the configured week start and the weekday of
/// `first_day`: how many filler cells precede the month's first day.
pub fn start_offset(first_day: &Date, sunday_first: bool) -> (n: u32)
    requires
        first_day.valid(),
    ensures
        n == start_offset_of(*first_day, sunday_first),
        n < 7,
{
    if sunday_first {
        weekday_from_sunday(first_day)
    } else {
        weekday_from_monday(first_day)
    }
}

/// Number of trailing filler cells that complete the final week, computed
/// from the first day of the next month.
pub fn end_offset(first_day: &Date, sunday_first: bool) -> (n: u32)
    requires
        first_day.valid(),
    ensures
        n == end_offset_of(*first_day, sunday_first),
        n < 7,
{
    (7 - start_offset(first_day, sunday_first)) % 7
}

/// Leading filler of the month's grid.
pub open spec fn grid_start_offset_of(year: i32, month: u32, sunday_first: bool) -> int {
    start_offset_of(Date { year, month, day: 1u32 }, sunday_first)
}

/// Trailing filler of the month's grid.
pub open spec fn grid_end_offset_of(year: i32, month: u32, sunday_first: bool) -> int {
    end_offset_of(next_month_first(Date { year, month, day: 1u32 }), sunday_first)
}

/// Total number of cells in the month's grid.
pub open spec fn grid_len_of(year: i32, month: u32, sunday_first: bool) -> int {
    grid_start_offset_of(year, month, sunday_first) + days_in_month_of(year as int, month as int)
        + grid_end_offset_of(year, month, sunday_first)
}

/// Day index of the grid's first cell.
pub open spec fn grid_first_index_of(year: i32, month: u32, sunday_first: bool) -> int {
    Date { year, month, day: 1u32 }.day_index() - grid_start_offset_of(year, month, sunday_first)
}

/// A weekday offset, a month length, and the complementary trailing offset
/// always sum to a whole number of weeks.
proof fn lemma_tile(a: int, b: int)
    ensures
        (a % 7 + b + (7 - (a + b) % 7) % 7) % 7 == 0,
{
    let n = a + b;
    lemma_fundamental_div_mod(n, 7);
    lemma_fundamental_div_mod(a, 7);
    lemma_mod_bound(n, 7);
    lemma_mod_bound(a, 7);
    let t = n % 7;
    if t == 0 {
        assert(a % 7 + b + (7 - t) % 7 == 7 * (n / 7 - a / 7));
        lemma_mod_multiples_basic(n / 7 - a / 7, 7);
    } else {
        lemma_mod_bound(7 - t, 7);
        assert((7 - t) % 7 == 7 - t) by {
            lemma_fundamental_div_mod(7 - t, 7);
            vstd::arithmetic::div_mod::lemma_fundamental_div_mod_converse(7 - t, 7, 0, 7 - t);
        }
        assert(a % 7 + b + (7 - t) % 7 == 7 * (n / 7 - a / 7 + 1));
        lemma_mod_multiples_basic(n / 7 - a / 7 + 1, 7);
    }
}

/// The leading offset, the month's length, and the trailing offset sum to a
/// multiple of seven, so the grid tiles exactly into full weeks.
pub proof fn lemma_offsets_tile(year: i32, month: u32, sunday_first: bool)
    requires
        (Date { year, month, day: 1u32 }).valid(),
        month < 12 || year < MAX_YEAR,
    ensures
        grid_len_of(year, month, sunday_first) % 7 == 0,
{
    let first = Date { year, month, day: 1u32 };
    lemma_month_span(first);
    if sunday_first {
        lemma_tile(first.day_index() + 1, days_in_month_of(year as int, month as int));
    } else {
        lemma_tile(first.day_index(), days_in_month_of(year as int, month as int));
    }
}

/// The grid's first cell lies on the configured week start, at most six
/// days before the month's first day.
pub proof fn lemma_grid_starts_on_week_start(year: i32, month: u32, sunday_first: bool)
    requires
        (Date { year, month, day: 1u32 }).valid(),
    ensures
        ({
            let b = grid_first_index_of(year, month, sunday_first);
            let first = Date { year, month, day: 1u32 };
            &&& first.day_index() - 7 < b <= first.day_index()
            &&& (!sunday_first ==> b % 7 == 0)
            &&& (sunday_first ==> (b + 1) % 7 == 0)
        }),
{
    let first = Date { year, month, day: 1u32 };
    let idx = first.day_index();
    if sunday_first {
        lemma_mod_bound(idx + 1, 7);
        lemma_fundamental_div_mod(idx + 1, 7);
        lemma_mod_multiples_basic((idx + 1) / 7, 7);
    } else {
        lemma_mod_bound(idx, 7);
        lemma_fundamental_div_mod(idx, 7);
        lemma_mod_multiples_basic(idx / 7, 7);
    }
}

/// A run of consecutive valid dates holds no duplicates.
pub proof fn lemma_grid_no_duplicates(g: Seq<Date>, base: int)
    requires
        forall|i: int| 0 <= i < g.len() ==> (#[trigger] g[i]).valid() && g[i].day_index() == base
            + i,
    ensures
        forall|i: int, j: int| 0 <= i < j < g.len() ==> g[i] != g[j],
{
    assert forall|i: int, j: int| 0 <= i < j < g.len() implies g[i] != g[j] by {
        lemma_order_matches_day_index(g[i], g[j]);
    }
}

/// The weekday order of the grid's header row, as weekday numbers counted
/// from Monday (Monday is 0, Sunday is 6): Sunday leads when `sunday_first`
/// is set, Monday otherwise. The host maps each number to its name.
pub fn weekday_header(sunday_first: bool) -> (v: Vec<u32>)
    ensures
        sunday_first ==> v@ == seq![6u32, 0u32, 1u32, 2u32, 3u32, 4u32, 5u32],
        !sunday_first ==> v@ == seq![0u32, 1u32, 2u32, 3u32, 4u32, 5u32, 6u32],
{
    let mut v: Vec<u32> = Vec::new();
    if sunday_first {
        v.push(6);
        v.push(0);
        v.push(1);
        v.push(2);
        v.push(3);
        v.push(4);
        v.push(5);
        proof {
            assert(v@ =~= seq![6u32, 0u32, 1u32, 2u32, 3u32, 4u32, 5u32]);
        }
    } else {
        v.push(0);
        v.push(1);
        v.push(2);
        v.push(3);
        v.push(4);
        v.push(5);
        v.push(6);
        proof {
            assert(v@ =~= seq![0u32, 1u32, 2u32, 3u32, 4u32, 5u32, 6u32]);
        }
    }
    v
}

/// The sequence of dates shown for the given month: leading filler from the
/// previous month, all of the month's days, trailing filler from the next.
/// The cells are consecutive dates, each one day past its predecessor, the
/// whole grid a multiple of seven long, and the month's day `d` sits at
/// cell `start_offset + d - 1`. Only the first and last modelled months
/// (January of the first year, December of the last) are excluded: their
/// filler days would leave the modelled range.
pub fn grid_dates(year: i32, month: u32, sunday_first: bool) -> (g: Vec<Date>)
    requires
        MIN_YEAR <= year <= MAX_YEAR,
        1 <= month <= 12,
        month > 1 || year > MIN_YEAR,
        month < 12 || year < MAX_YEAR,
    ensures
        g@.len() == grid_len_of(year, month, sunday_first),
        g@.len() % 7 == 0,
        forall|i: int|
            0 <= i < g@.len() ==> (#[trigger] g@[i]).valid() && g@[i].day_index()
                == grid_first_index_of(year, month, sunday_first) + i,
        forall|i: int|
            grid_start_offset_of(year, month, sunday_first) <= i < grid_start_offset_of(
                year,
                month,
                sunday_first,
            ) + days_in_month_of(year as int, month as int) ==> #[trigger] g@[i] == (Date {
                year,
                month,
                day: (i - grid_start_offset_of(year, month, sunday_first) + 1) as u32,
            }),
{
    let first = Date { year, month, day: 1 };
    let so = start_offset(&first, sunday_first);
    let dim = days_in_month(year, month);
    let next_first = if month == 12 {
        Date { year: year + 1, month: 1, day: 1 }
    } else {
        Date { year, month: month + 1, day: 1 }
    };
    proof {
        lemma_month_span(first);
        lemma_offsets_tile(year, month, sunday_first);
        lemma_day_index_bounds(first);
        let last_of_next = Date {
            year: next_first.year,
            month: next_first.month,
            day: days_in_month_of(next_first.year as int, next_first.month as int) as u32,
        };
        lemma_day_index_bounds(last_of_next);
    }
    let eo = end_offset(&next_first, sunday_first);
    let total = so + dim + eo;
    let start = add_days(&first, -(so as i64));
    let mut g: Vec<Date> = Vec::new();
    let mut cur: Date = start;
    let mut i: u32 = 0;
    while i < total
        invariant
            i <= total,
            g@.len() == i,
            cur.valid(),
            cur.day_index() == start.day_index() + i,
            start.day_index() + total <= max_day_index(),
            forall|k: int|
                0 <= k < i ==> (#[trigger] g@[k]).valid() && g@[k].day_index()
                    == start.day_index() + k,
        decreases total - i,
    {
        g.push(cur);
        cur = next_day(&cur);
        i = i + 1;
    }
    proof {
        let so_s = grid_start_offset_of(year, month, sunday_first);
        assert forall|i: int|
            so_s <= i < so_s + days_in_month_of(year as int, month as int) implies #[trigger] g@[i]
            == (Date { year, month, day: (i - so_s + 1) as u32 }) by {
            let target = Date { year, month, day: (i - so_s + 1) as u32 };
            lemma_order_matches_day_index(g@[i], target);
        }
    }
    g
}

} // verus!
