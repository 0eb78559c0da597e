use cz4r::dates::Date;
use cz4r::payroll::aggregate;
use cz4r::payroll::hours_worked;
use cz4r::payroll::minutes_to_hours_h;
use cz4r::payroll::render_entry;
use cz4r::payroll::render_totals;
use cz4r::payroll::ShiftRecord;

fn shift(sign_in: Option<u32>, sign_out: Option<u32>) -> ShiftRecord {
    ShiftRecord {
        job_id: 10,
        worker_id: 1,
        date: Date { year: 2023, month: 10, day: 9 },
        site_name: String::from("Depot"),
        sign_in,
        sign_out,
        miles_driven_h: 1250,      // 12.50 miles
        hours_driven_h: 50,        // 0.50 hours
        extra_expense_cents: 599,  // 5.99
        using_flat_rate: false,
        notes: String::new(),
    }
}

#[test]
fn short_shift_is_floored_to_one_hour() {
    // sign in 09:00, sign out 09:10, floor one hour
    let h = hours_worked(9 * 60, 9 * 60 + 10, 60);
    assert_eq!(h, 100); // 1.00 hours billed
}

#[test]
fn long_shift_is_not_floored() {
    // sign in 09:00, sign out 17:00
    let h = hours_worked(9 * 60, 17 * 60, 60);
    assert_eq!(h, 800); // 8.00 hours billed
}

#[test]
fn ten_minutes_raw_displays_as_zero_point_one_seven() {
    assert_eq!(minutes_to_hours_h(10), 17);
    assert_eq!(minutes_to_hours_h(-10), -17);
}

#[test]
fn incomplete_shift_reports_sentinel_and_is_excluded_from_totals() {
    let complete = shift(Some(9 * 60), Some(17 * 60));
    let open = shift(Some(9 * 60), None);
    let (entries, totals) = aggregate(&vec![complete, open], 60);
    assert_eq!(entries.len(), 2);
    assert!(entries[0].completed);
    assert_eq!(entries[0].billed, Some(480));
    assert!(!entries[1].completed);
    assert_eq!(entries[1].billed, None);
    let row = render_entry(&entries[1]);
    assert_eq!(row.hours_worked, "N/A");
    assert_eq!(row.true_hours_worked, "N/A");
    // one shift is incomplete: no period hours total at all
    assert!(!totals.all_complete);
    assert_eq!(totals.billed, None);
    let trow = render_totals(&totals);
    assert_eq!(trow.hours_worked, "N/A");
    // driven and expense figures count complete shifts only
    assert_eq!(totals.miles_driven_h, 1250);
    assert_eq!(totals.hours_driven_h, 50);
    assert_eq!(totals.extra_expense_cents, 599);
}

#[test]
fn all_complete_period_totals() {
    let a = shift(Some(9 * 60), Some(9 * 60 + 10));
    let b = shift(Some(9 * 60), Some(17 * 60));
    let (entries, totals) = aggregate(&vec![a, b], 60);
    assert_eq!(entries.len(), 2);
    assert!(totals.all_complete);
    // 60 floored minutes + 480 minutes
    assert_eq!(totals.billed, Some(540));
    let trow = render_totals(&totals);
    assert_eq!(trow.hours_worked, "9.00");
    assert_eq!(trow.miles_driven, "25.00");
    assert_eq!(trow.hours_driven, "1.00");
    assert_eq!(trow.extra_expense, "11.98");
    assert_eq!(trow.job_id, -1);
    assert_eq!(trow.worker_id, -1);
}

#[test]
fn aggregate_of_no_shifts() {
    let (entries, totals) = aggregate(&vec![], 60);
    assert!(entries.is_empty());
    assert!(totals.all_complete);
    assert_eq!(totals.billed, Some(0));
    assert_eq!(totals.miles_driven_h, 0);
}

#[test]
fn sign_out_before_sign_in_bills_the_floor() {
    let odd = shift(Some(17 * 60), Some(9 * 60));
    let (entries, totals) = aggregate(&vec![odd], 60);
    assert_eq!(entries[0].billed, Some(60));
    assert_eq!(entries[0].raw, Some(-480));
    assert_eq!(totals.billed, Some(60));
    let row = render_entry(&entries[0]);
    assert_eq!(row.hours_worked, "1.00");
    assert_eq!(row.true_hours_worked, "-8.00");
}

#[test]
fn rendered_entry_carries_the_shift_through() {
    let s = shift(Some(8 * 60), Some(12 * 60 + 30));
    let (entries, _) = aggregate(&vec![s], 60);
    let row = render_entry(&entries[0]);
    assert_eq!(row.date, "2023-10-09");
    assert_eq!(row.location, "Depot");
    assert_eq!(row.hours_worked, "4.50");
    assert_eq!(row.true_hours_worked, "4.50");
    assert_eq!(row.miles_driven, "12.50");
    assert_eq!(row.hours_driven, "0.50");
    assert_eq!(row.extra_expense, "5.99");
    assert!(row.completed);
    assert!(!row.flat_rate);
}
