use datepicker::calendar::end_offset;
use datepicker::calendar::grid_dates;
use datepicker::calendar::start_offset;
use datepicker::calendar::weekday_header;
use datepicker::date::day_number;
use datepicker::date::days_in_month;
use datepicker::date::weekday_from_monday;
use datepicker::date::Date;

fn ymd(year: i32, month: u32, day: u32) -> Date {
    Date { year, month, day }
}

#[test]
fn offsets_march_2023() {
    // March 1, 2023 is a Wednesday: two filler days after Monday, three after Sunday
    assert_eq!(start_offset(&ymd(2023, 3, 1), false), 2);
    assert_eq!(start_offset(&ymd(2023, 3, 1), true), 3);
    // April 1, 2023 is a Saturday
    assert_eq!(end_offset(&ymd(2023, 4, 1), false), 2);
    assert_eq!(end_offset(&ymd(2023, 4, 1), true), 1);
}

#[test]
fn offsets_tile_into_weeks() {
    for year in [2020, 2023, 2024] {
        for month in 1..=12u32 {
            for sunday_first in [false, true] {
                let first = ymd(year, month, 1);
                let next = if month == 12 {
                    ymd(year + 1, 1, 1)
                } else {
                    ymd(year, month + 1, 1)
                };
                let total = start_offset(&first, sunday_first)
                    + days_in_month(year, month)
                    + end_offset(&next, sunday_first);
                assert_eq!(total % 7, 0);
            }
        }
    }
}

#[test]
fn grid_march_2023_monday_first() {
    let g = grid_dates(2023, 3, false);
    // 2 leading filler days + 31 days + 2 trailing filler days
    assert_eq!(g.len(), 35);
    assert_eq!(g[0], ymd(2023, 2, 27));
    assert_eq!(g[2], ymd(2023, 3, 1));
    assert_eq!(g[32], ymd(2023, 3, 31));
    assert_eq!(g[34], ymd(2023, 4, 2));
    // the first cell lies on the configured week start
    assert_eq!(weekday_from_monday(&g[0]), 0);
}

#[test]
fn grid_march_2023_sunday_first() {
    let g = grid_dates(2023, 3, true);
    assert_eq!(g.len(), 35);
    // the Sunday at or before March 1 is February 26
    assert_eq!(g[0], ymd(2023, 2, 26));
    assert_eq!(weekday_from_monday(&g[0]), 6);
    assert_eq!(g[3], ymd(2023, 3, 1));
}

#[test]
fn grid_weeks_are_consecutive_days() {
    for (year, month, sunday_first) in [(2023, 3, false), (2024, 2, true), (2023, 12, false)] {
        let g = grid_dates(year, month, sunday_first);
        assert_eq!(g.len() % 7, 0);
        for w in g.windows(2) {
            // strictly increasing by exactly one day per step
            assert_eq!(day_number(&w[1]), day_number(&w[0]) + 1);
        }
    }
}

#[test]
fn grid_contains_whole_month_once() {
    let g = grid_dates(2024, 2, false);
    for d in 1..=29u32 {
        let count = g.iter().filter(|x| **x == ymd(2024, 2, d)).count();
        assert_eq!(count, 1);
    }
    // no duplicates anywhere
    for i in 0..g.len() {
        for j in (i + 1)..g.len() {
            assert_ne!(g[i], g[j]);
        }
    }
}

#[test]
fn grid_december_rolls_into_next_year() {
    let g = grid_dates(2023, 12, false);
    let last = g[g.len() - 1];
    // December 31, 2023 is a Sunday, so the grid ends exactly on it
    assert_eq!(last, ymd(2023, 12, 31));
    let g2 = grid_dates(2024, 12, false);
    let last2 = g2[g2.len() - 1];
    // December 31, 2024 is a Tuesday: trailing filler comes from January 2025
    assert_eq!(last2, ymd(2025, 1, 5));
}

#[test]
fn grid_at_model_boundaries() {
    // February of the first modelled year renders: its leading filler days
    // come from January of year 1
    let g = grid_dates(1, 2, false);
    assert_eq!(g.len() % 7, 0);
    assert_eq!(g[0].year, 1);
    // November of the last modelled year renders: its trailing filler days
    // come from December of year 9999
    let g = grid_dates(9999, 11, true);
    assert_eq!(g.len() % 7, 0);
    assert_eq!(g[g.len() - 1].year, 9999);
}

#[test]
fn header_orders() {
    assert_eq!(weekday_header(false), vec![0, 1, 2, 3, 4, 5, 6]);
    assert_eq!(weekday_header(true), vec![6, 0, 1, 2, 3, 4, 5]);
}
