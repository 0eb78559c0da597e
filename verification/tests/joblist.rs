use cz4r::checkinout::checkinout_update;
use cz4r::checkinout::format_hhmm;
use cz4r::checkinout::parse_hhmm;
use cz4r::checkinout::split_drive_time;
use cz4r::dates::Date;
use cz4r::errors::CustomError;
use cz4r::joblist::job_search_scope;
use cz4r::joblist::mark_selected;
use cz4r::joblist::search_flags;
use cz4r::joblist::JobData;
use cz4r::joblist::JobQueryOutput;
use cz4r::joblist::Order;
use cz4r::assign::selection_list;
use cz4r::worker_admin::parse_admin_flag;
use cz4r::worker_admin::parse_worker_profile;
use cz4r::worker_admin::parse_rates;

fn row(signin: Option<&str>, signout: Option<&str>) -> JobQueryOutput {
    JobQueryOutput {
        name: String::from("pat"),
        id: 11,
        worker: Some(1),
        sitename: String::from("Yard"),
        address: String::from("1 Main St"),
        date: Date { year: 2023, month: 10, day: 9 },
        notes: String::from("gate code 4"),
        workorder: String::from("WO-9"),
        servicecode: String::from("SC-2"),
        signin: signin.map(String::from),
        signout: signout.map(String::from),
        workernotes: Some(String::new()),
        miles_driven_h: Some(0),
        hours_driven_h: Some(0),
        extraexpcents: Some(0),
    }
}

#[test]
fn status_classification() {
    let assigned = JobData::from_outputs(vec![row(None, None)], true, false, false);
    assert_eq!(assigned.len(), 1);
    assert_eq!(assigned[0].status, "assigned");

    let started = JobData::from_outputs(vec![row(Some("09:00"), None)], false, true, false);
    assert_eq!(started[0].status, "started");

    let outnotin = JobData::from_outputs(vec![row(None, Some("17:00"))], false, false, false);
    assert_eq!(outnotin[0].status, "outnotin");

    let done = JobData::from_outputs(vec![row(Some("09:00"), Some("17:00"))], false, false, true);
    assert_eq!(done[0].status, "signedout");
}

#[test]
fn recorded_data_counts_as_started() {
    let mut r = row(None, None);
    r.miles_driven_h = Some(300);
    let datas = JobData::from_outputs(vec![r], false, true, false);
    assert_eq!(datas.len(), 1);
    assert_eq!(datas[0].status, "started");
}

#[test]
fn filters_drop_unselected_statuses() {
    let rows = vec![
        row(None, None),
        row(Some("09:00"), None),
        row(Some("09:00"), Some("17:00")),
        row(None, Some("17:00")),
    ];
    let datas = JobData::from_outputs(rows, false, false, false);
    // only the sign-out-without-sign-in row survives every filter
    assert_eq!(datas.len(), 1);
    assert_eq!(datas[0].status, "outnotin");
}

#[test]
fn rendered_row_carries_the_job_through() {
    let datas = JobData::from_outputs(vec![row(Some("09:00"), Some("17:00"))], true, true, true);
    let d = &datas[0];
    assert_eq!(d.job_id, 11);
    assert_eq!(d.worker_id, Some(1));
    assert_eq!(d.worker_name, "pat");
    assert_eq!(d.job_name, "Yard");
    assert_eq!(d.date, "October 9, 2023");
    assert_eq!(d.work_order, "WO-9");
    assert_eq!(d.service_code, "SC-2");
}

#[test]
fn plain_page_view_shows_everything() {
    assert_eq!(search_flags(None, None, None, None), (true, true, true));
    assert_eq!(
        search_flags(Some(Order::Latest), Some(true), None, Some(false)),
        (true, false, false)
    );
}

#[test]
fn worker_filter_marks_selection() {
    let workers = vec![(1i64, String::from("a")), (2i64, String::from("b"))];
    let all = mark_selected(workers.clone(), &None);
    assert!(all.iter().all(|w| w.2));
    let some = mark_selected(workers, &Some(vec![2]));
    assert_eq!(some[0].2, false);
    assert_eq!(some[1].2, true);
}

#[test]
fn hhmm_parsing() {
    assert_eq!(parse_hhmm("09:00"), Some(540));
    assert_eq!(parse_hhmm("00:00"), Some(0));
    assert_eq!(parse_hhmm("23:59"), Some(1439));
    assert_eq!(parse_hhmm("24:00"), None);
    assert_eq!(parse_hhmm("09:60"), None);
    assert_eq!(parse_hhmm("9:00"), None);
    assert_eq!(parse_hhmm("0900"), None);
    assert_eq!(parse_hhmm(""), None);
}

#[test]
fn hhmm_display_pads() {
    assert_eq!(format_hhmm(540), "09:00");
    assert_eq!(format_hhmm(1439), "23:59");
    assert_eq!(format_hhmm(5), "00:05");
}

#[test]
fn checkinout_accepts_a_full_submission() {
    // thirty minutes arrive as three thousand hundredths of a minute
    let u = checkinout_update("09:00", "17:30", "12.50", 2000, 100, 3000, "fixed gate").unwrap();
    assert_eq!(u.sign_in, Some(540));
    assert_eq!(u.sign_out, Some(1050));
    assert_eq!(u.extra_expense_cents, 1250);
    assert_eq!(u.miles_driven_h, 2000);
    // one hour plus thirty minutes of driving
    assert_eq!(u.hours_driven_h, 150);
    assert_eq!(u.notes, "fixed gate");
}

#[test]
fn checkinout_empty_times_clear_them() {
    let u = checkinout_update("", "", "0.00", 0, 0, 0, "").unwrap();
    assert_eq!(u.sign_in, None);
    assert_eq!(u.sign_out, None);
    assert_eq!(u.notes, "");
}

#[test]
fn checkinout_rejects_malformed_fields() {
    assert_eq!(
        checkinout_update("late", "", "0.00", 0, 0, 0, "").unwrap_err(),
        CustomError::InvalidClientData
    );
    assert_eq!(
        checkinout_update("", "25:00", "0.00", 0, 0, 0, "").unwrap_err(),
        CustomError::InvalidClientData
    );
    assert_eq!(
        checkinout_update("", "", "lots", 0, 0, 0, "").unwrap_err(),
        CustomError::InvalidClientData
    );
    assert_eq!(
        checkinout_update("", "", "", 0, 0, 0, "").unwrap_err(),
        CustomError::InvalidClientData
    );
}

#[test]
fn plain_expense_amounts_store_their_exact_cents() {
    assert_eq!(checkinout_update("", "", "5.5", 0, 0, 0, "").unwrap().extra_expense_cents, 550);
    assert_eq!(checkinout_update("", "", "7", 0, 0, 0, "").unwrap().extra_expense_cents, 700);
}

#[test]
fn huge_expense_amounts_are_rejected_not_fatal() {
    // an amount beyond the decimal type's range must error, never abort
    let s = "1000000000000000000000000000";
    assert_eq!(
        checkinout_update("", "", s, 0, 0, 0, "").unwrap_err(),
        CustomError::InvalidClientData
    );
}

#[test]
fn drive_time_splits_back_into_hours_and_minutes() {
    // minutes come back in hundredths, so nothing is lost in display
    assert_eq!(split_drive_time(150), (1, 3000));
    assert_eq!(split_drive_time(0), (0, 0));
    assert_eq!(split_drive_time(99), (0, 5940));
}

#[test]
fn drive_time_survives_the_page_form_round_trip() {
    // what the page shows, resubmitted through the form, stores unchanged
    for stored in [0i64, 1, 99, 100, 101, 150, 12345] {
        let (hours, minutes_h) = split_drive_time(stored);
        let u = checkinout_update("", "", "0.00", 0, hours * 100, minutes_h, "").unwrap();
        assert_eq!(u.hours_driven_h, stored);
    }
}

#[test]
fn job_search_is_scoped_to_the_worker_unless_admin_filters() {
    assert_eq!(job_search_scope(false, 7, &Some(vec![1, 2])), vec![7]);
    assert_eq!(job_search_scope(false, 7, &None), vec![7]);
    assert_eq!(job_search_scope(true, 7, &None), vec![7]);
    assert_eq!(job_search_scope(true, 7, &Some(vec![1, 2])), vec![1, 2]);
}

#[test]
fn admin_flag_words() {
    assert_eq!(parse_admin_flag(&None), Ok(false));
    assert_eq!(parse_admin_flag(&Some(String::from("on"))), Ok(true));
    assert_eq!(parse_admin_flag(&Some(String::from("yes"))), Ok(true));
    assert_eq!(parse_admin_flag(&Some(String::from("off"))), Ok(false));
    assert_eq!(parse_admin_flag(&Some(String::from("no"))), Ok(false));
    assert_eq!(
        parse_admin_flag(&Some(String::from("maybe"))),
        Err(CustomError::InvalidClientData)
    );
}

#[test]
fn rates_parse_to_cents() {
    let r = parse_rates("25.00", "0.67", "15.00", "100.00").unwrap();
    assert_eq!(r.hourly_cents, 2500);
    assert_eq!(r.mileage_cents, 67);
    assert_eq!(r.drive_hourly_cents, 1500);
    assert_eq!(r.flat_rate_cents, 10000);
    assert_eq!(
        parse_rates("25.00", "x", "15.00", "100.00").unwrap_err(),
        CustomError::InvalidClientData
    );
}

#[test]
fn selection_list_marks_assignment_and_flat_rate() {
    let workers = vec![(1i64, String::from("a")), (2i64, String::from("b")), (3i64, String::from("c"))];
    let current = vec![(1i64, true), (2i64, false)];
    let list = selection_list(&workers, &current);
    assert_eq!(list[0], (1, String::from("a"), true, true));
    assert_eq!(list[1], (2, String::from("b"), true, false));
    assert_eq!(list[2], (3, String::from("c"), false, false));
}

#[test]
fn worker_profile_parses_rates_and_admin_together() {
    let (rates, admin) =
        parse_worker_profile("25.00", "0.67", "15.00", "100.00", &Some(String::from("on")))
            .unwrap();
    assert_eq!(rates.hourly_cents, 2500);
    assert!(admin);
    assert_eq!(
        parse_worker_profile("25.00", "0.67", "15.00", "100.00", &Some(String::from("maybe")))
            .unwrap_err(),
        CustomError::InvalidClientData
    );
}
