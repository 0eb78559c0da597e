use cz4r::dates::Date;
use cz4r::dates::days_in_month_exec;
use cz4r::dates::default_period;
use cz4r::dates::default_period_start;
use cz4r::dates::default_search_range;
use cz4r::dates::format_iso_date;
use cz4r::dates::format_long_date;

#[test]
fn early_month_period_starts_on_the_first() {
    let today = Date { year: 2023, month: 10, day: 10 };
    let start = default_period_start(today);
    assert_eq!(start, Date { year: 2023, month: 10, day: 1 });
}

#[test]
fn late_month_period_starts_on_the_sixteenth() {
    let today = Date { year: 2023, month: 10, day: 20 };
    let start = default_period_start(today);
    assert_eq!(start, Date { year: 2023, month: 10, day: 16 });
}

#[test]
fn fifteenth_still_belongs_to_the_first_half() {
    let today = Date { year: 2023, month: 2, day: 15 };
    assert_eq!(default_period_start(today).day, 1);
    let sixteenth = Date { year: 2023, month: 2, day: 16 };
    assert_eq!(default_period_start(sixteenth).day, 16);
}

#[test]
fn explicit_bounds_override_the_defaults() {
    let today = Date { year: 2023, month: 10, day: 10 };
    let s = Date { year: 2023, month: 9, day: 1 };
    let e = Date { year: 2023, month: 9, day: 30 };
    assert_eq!(default_period(today, Some(s), Some(e)), (s, e));
    assert_eq!(
        default_period(today, None, None),
        (Date { year: 2023, month: 10, day: 1 }, today)
    );
}

#[test]
fn search_range_defaults_to_fifteen_days_out() {
    let today = Date { year: 2023, month: 12, day: 28 };
    let (s, e) = default_search_range(today, None, None);
    assert_eq!(s, today);
    assert_eq!(e, Date { year: 2024, month: 1, day: 12 });
}

#[test]
fn leap_february_has_a_twenty_ninth() {
    let d = Date { year: 2024, month: 2, day: 28 };
    assert_eq!(d.plus_days(1), Date { year: 2024, month: 2, day: 29 });
    let d2 = Date { year: 2023, month: 2, day: 28 };
    assert_eq!(d2.plus_days(1), Date { year: 2023, month: 3, day: 1 });
    let century = Date { year: 1900, month: 2, day: 28 };
    assert_eq!(century.plus_days(1), Date { year: 1900, month: 3, day: 1 });
    let quadricentennial = Date { year: 2000, month: 2, day: 28 };
    assert_eq!(quadricentennial.plus_days(1), Date { year: 2000, month: 2, day: 29 });
}

#[test]
fn iso_display_pads_every_field() {
    assert_eq!(format_iso_date(Date { year: 2023, month: 10, day: 9 }), "2023-10-09");
    assert_eq!(format_iso_date(Date { year: 870, month: 1, day: 31 }), "0870-01-31");
}

#[test]
fn long_display_names_the_month() {
    assert_eq!(format_long_date(Date { year: 2023, month: 10, day: 9 }), "October 9, 2023");
    assert_eq!(format_long_date(Date { year: 2024, month: 1, day: 31 }), "January 31, 2024");
}

#[test]
fn month_lengths() {
    assert_eq!(days_in_month_exec(2023, 2), 28);
    assert_eq!(days_in_month_exec(2024, 2), 29);
    assert_eq!(days_in_month_exec(1900, 2), 28);
    assert_eq!(days_in_month_exec(2000, 2), 29);
    assert_eq!(days_in_month_exec(2023, 4), 30);
    assert_eq!(days_in_month_exec(2023, 12), 31);
}
