use chrono::Datelike;
use datepicker::date::add_days;
use datepicker::date::day_number;
use datepicker::date::days_in_month;
use datepicker::date::is_leap;
use datepicker::date::is_standard_weekend;
use datepicker::date::next_day;
use datepicker::date::prev_day;
use datepicker::date::weekday_from_monday;
use datepicker::date::weekday_from_sunday;
use datepicker::date::Date;

fn ymd(year: i32, month: u32, day: u32) -> Date {
    Date { year, month, day }
}

#[test]
fn leap_years() {
    assert!(is_leap(2024));
    assert!(!is_leap(2023));
    assert!(is_leap(2000));
    assert!(!is_leap(1900));
    assert!(!is_leap(2100));
    assert!(is_leap(1600));
    assert!(is_leap(4));
}

#[test]
fn days_in_month_gregorian() {
    assert_eq!(days_in_month(2024, 2), 29);
    assert_eq!(days_in_month(2023, 2), 28);
    let lengths = [31, 28, 31, 30, 31, 30, 31, 31, 30, 31, 30, 31];
    for m in 1..=12u32 {
        assert_eq!(days_in_month(2023, m), lengths[(m - 1) as usize]);
    }
    assert_eq!(days_in_month(2000, 2), 29);
    assert_eq!(days_in_month(1900, 2), 28);
}

#[test]
fn days_in_month_matches_chrono() {
    for year in [1999, 2000, 2020, 2023, 2024, 2100] {
        for month in 1..=12u32 {
            let first = chrono::NaiveDate::from_ymd_opt(year, month, 1).unwrap();
            let next = if month == 12 {
                chrono::NaiveDate::from_ymd_opt(year + 1, 1, 1).unwrap()
            } else {
                chrono::NaiveDate::from_ymd_opt(year, month + 1, 1).unwrap()
            };
            let expected = next.signed_duration_since(first).num_days();
            assert_eq!(days_in_month(year, month) as i64, expected);
        }
    }
}

#[test]
fn december_rolls_into_next_year() {
    // stepping the length of December from its first day lands on January 1
    let first = ymd(2023, 12, 1);
    let next = add_days(&first, days_in_month(2023, 12) as i64);
    assert_eq!(next, ymd(2024, 1, 1));
}

#[test]
fn weekday_matches_chrono() {
    // walk a year and a half spanning a leap day
    let mut c = chrono::NaiveDate::from_ymd_opt(2023, 11, 20).unwrap();
    let mut d = ymd(2023, 11, 20);
    for _ in 0..550 {
        assert_eq!(weekday_from_monday(&d), c.weekday().num_days_from_monday());
        assert_eq!(weekday_from_sunday(&d), c.weekday().num_days_from_sunday());
        c = c.succ_opt().unwrap();
        d = next_day(&d);
        assert_eq!(d.year, c.year());
        assert_eq!(d.month, c.month());
        assert_eq!(d.day, c.day());
    }
}

#[test]
fn day_number_matches_chrono_day_count() {
    // chrono counts January 1 of year 1 as day 1 of the common era
    for (y, m, dd) in [(1, 1, 1), (1, 12, 31), (1970, 1, 1), (2023, 3, 15), (9999, 12, 31)] {
        let ours = day_number(&ymd(y, m, dd));
        let chronos = chrono::NaiveDate::from_ymd_opt(y, m, dd).unwrap().num_days_from_ce();
        assert_eq!(ours as i64 + 1, chronos as i64);
    }
}

#[test]
fn known_weekdays() {
    // March 1, 2023 was a Wednesday
    assert_eq!(weekday_from_monday(&ymd(2023, 3, 1)), 2);
    // March 15, 2023 was a Wednesday too
    assert_eq!(weekday_from_monday(&ymd(2023, 3, 15)), 2);
    // January 1 of year 1 is a Monday in the proleptic Gregorian calendar
    assert_eq!(weekday_from_monday(&ymd(1, 1, 1)), 0);
}

#[test]
fn standard_weekend_flags_saturday_and_sunday() {
    // March 2023: the 4th and 5th are Saturday and Sunday
    assert!(is_standard_weekend(&ymd(2023, 3, 4)));
    assert!(is_standard_weekend(&ymd(2023, 3, 5)));
    assert!(!is_standard_weekend(&ymd(2023, 3, 6)));
    assert!(!is_standard_weekend(&ymd(2023, 3, 15)));
}

#[test]
fn next_and_prev_day_cross_boundaries() {
    assert_eq!(next_day(&ymd(2023, 2, 28)), ymd(2023, 3, 1));
    assert_eq!(next_day(&ymd(2024, 2, 28)), ymd(2024, 2, 29));
    assert_eq!(next_day(&ymd(2023, 12, 31)), ymd(2024, 1, 1));
    assert_eq!(prev_day(&ymd(2024, 1, 1)), ymd(2023, 12, 31));
    assert_eq!(prev_day(&ymd(2023, 3, 1)), ymd(2023, 2, 28));
}

#[test]
fn add_days_both_directions() {
    assert_eq!(add_days(&ymd(2023, 12, 20), 30), ymd(2024, 1, 19));
    assert_eq!(add_days(&ymd(2024, 1, 19), -30), ymd(2023, 12, 20));
    assert_eq!(add_days(&ymd(2023, 3, 15), 365), ymd(2024, 3, 14));
    assert_eq!(add_days(&ymd(2023, 3, 15), 0), ymd(2023, 3, 15));
}

#[test]
fn date_ordering() {
    let a = ymd(2023, 3, 15);
    assert!(ymd(2023, 3, 14).is_before(&a));
    assert!(ymd(2023, 2, 28).is_before(&a));
    assert!(ymd(2022, 12, 31).is_before(&a));
    assert!(!a.is_before(&a));
    assert!(!ymd(2023, 3, 16).is_before(&a));
}
