//! Payroll aggregation over per-shift records.
//!
//! Times of day are minutes since midnight; hour and mileage figures are
//! integer hundredths and money is integer cents, so no arithmetic here can
//! lose precision. A shift is complete when both its sign-in and sign-out
//! are recorded. Every shift appears in the rendered entry list; an
//! incomplete one reports a sentinel instead of worked hours and contributes
//! nothing to any period total. The period's worked-hours total is shown
//! only when every shift of the period is complete.

use vstd::prelude::*;
use vstd::string::StringExecFns;

use crate::dates::Date;
use crate::dates::format_iso_date;
use crate::dates::iso_date_string;
use crate::dates::valid_date;
use crate::money::format_hundredths;
use crate::money::signed_hundredths_string;

verus! {

/// One worker's time and expense record for one job occurrence.
pub struct ShiftRecord {
    pub job_id: i64,
    pub worker_id: i64,
    pub date: Date,
    pub site_name: String,
    /// Sign-in time in minutes since midnight, absent until check-in.
    pub sign_in: Option<u32>,
    /// Sign-out time in minutes since midnight, absent until check-out.
    pub sign_out: Option<u32>,
    /// Miles driven, in hundredths of a mile.
    pub miles_driven_h: i64,
    /// Hours driven, in hundredths of an hour.
    pub hours_driven_h: i64,
    pub extra_expense_cents: i64,
    pub using_flat_rate: bool,
    pub notes: String,
}

pub open spec fn wf_shift(s: ShiftRecord) -> bool {
    &&& (s.sign_in matches Some(t) ==> t < 1440)
    &&& (s.sign_out matches Some(t) ==> t < 1440)
    &&& s.miles_driven_h >= 0
    &&& s.hours_driven_h >= 0
    &&& s.extra_expense_cents >= 0
    &&& valid_date(s.date)
}

/// A shift is complete when both times are recorded.
pub open spec fn shift_complete(s: ShiftRecord) -> bool {
    s.sign_in is Some && s.sign_out is Some
}

/// Minutes actually on site; negative when the recorded sign-out precedes
/// the sign-in. Meaningful only for complete shifts.
pub open spec fn raw_minutes(s: ShiftRecord) -> int {
    s.sign_out->0 - s.sign_in->0
}

/// Billable minutes: the elapsed time, floored at the minimum per visit.
pub open spec fn billed_minutes(s: ShiftRecord, floor: int) -> int {
    if raw_minutes(s) < floor {
        floor
    } else {
        raw_minutes(s)
    }
}

pub open spec fn all_complete(ss: Seq<ShiftRecord>) -> bool {
    forall|i: int| 0 <= i < ss.len() ==> shift_complete(#[trigger] ss[i])
}

/// Billable minutes summed over the complete shifts.
pub open spec fn sum_billed(ss: Seq<ShiftRecord>, floor: int) -> int
    decreases ss.len(),
{
    if ss.len() == 0 {
        0
    } else {
        sum_billed(ss.drop_last(), floor) + if shift_complete(ss.last()) {
            billed_minutes(ss.last(), floor)
        } else {
            0
        }
    }
}

/// Driven hours (hundredths) summed over the complete shifts.
pub open spec fn sum_hours_driven(ss: Seq<ShiftRecord>) -> int
    decreases ss.len(),
{
    if ss.len() == 0 {
        0
    } else {
        sum_hours_driven(ss.drop_last()) + if shift_complete(ss.last()) {
            ss.last().hours_driven_h
        } else {
            0
        }
    }
}

/// Driven miles (hundredths) summed over the complete shifts.
pub open spec fn sum_miles(ss: Seq<ShiftRecord>) -> int
    decreases ss.len(),
{
    if ss.len() == 0 {
        0
    } else {
        sum_miles(ss.drop_last()) + if shift_complete(ss.last()) {
            ss.last().miles_driven_h
        } else {
            0
        }
    }
}

/// Extra expenses (cents) summed over the complete shifts.
pub open spec fn sum_expense(ss: Seq<ShiftRecord>) -> int
    decreases ss.len(),
{
    if ss.len() == 0 {
        0
    } else {
        sum_expense(ss.drop_last()) + if shift_complete(ss.last()) {
            ss.last().extra_expense_cents
        } else {
            0
        }
    }
}

/// One row of the payroll report, still as numbers.
pub struct ShiftEntry {
    pub job_id: i64,
    pub worker_id: i64,
    pub date: Date,
    pub site_name: String,
    pub using_flat_rate: bool,
    pub completed: bool,
    /// Billable minutes; absent for an incomplete shift.
    pub billed: Option<i64>,
    /// Uncushioned elapsed minutes; absent for an incomplete shift.
    pub raw: Option<i64>,
    pub hours_driven_h: i64,
    pub miles_driven_h: i64,
    pub extra_expense_cents: i64,
}

/// Period totals over the complete shifts of the report.
pub struct PayPeriodTotals {
    /// Billable minutes of the whole period; absent unless every shift of
    /// the period is complete.
    pub billed: Option<i64>,
    pub hours_driven_h: i64,
    pub miles_driven_h: i64,
    pub extra_expense_cents: i64,
    pub all_complete: bool,
}

/// How one report row relates to the shift it renders.
pub open spec fn entry_matches(e: ShiftEntry, s: ShiftRecord, floor: int) -> bool {
    &&& e.job_id == s.job_id
    &&& e.worker_id == s.worker_id
    &&& e.date == s.date
    &&& e.site_name@ == s.site_name@
    &&& e.using_flat_rate == s.using_flat_rate
    &&& e.completed == shift_complete(s)
    &&& e.billed == (if shift_complete(s) {
        Some(billed_minutes(s, floor) as i64)
    } else {
        None::<i64>
    })
    &&& e.raw == (if shift_complete(s) {
        Some(raw_minutes(s) as i64)
    } else {
        None::<i64>
    })
    &&& e.hours_driven_h == s.hours_driven_h
    &&& e.miles_driven_h == s.miles_driven_h
    &&& e.extra_expense_cents == s.extra_expense_cents
}

proof fn lemma_prefix_sums(ss: Seq<ShiftRecord>, floor: int, i: int)
    requires
        0 <= i <= ss.len(),
        floor >= 0,
        forall|j: int| 0 <= j < ss.len() ==> wf_shift(#[trigger] ss[j]),
    ensures
        sum_billed(ss.take(i), floor) <= sum_billed(ss, floor),
        sum_hours_driven(ss.take(i)) <= sum_hours_driven(ss),
        sum_miles(ss.take(i)) <= sum_miles(ss),
        sum_expense(ss.take(i)) <= sum_expense(ss),
        sum_billed(ss.take(i), floor) >= 0,
        sum_hours_driven(ss.take(i)) >= 0,
        sum_miles(ss.take(i)) >= 0,
        sum_expense(ss.take(i)) >= 0,
    decreases ss.len() - i,
{
    if i == ss.len() {
        assert(ss.take(i) =~= ss);
        lemma_sums_nonneg(ss, floor);
    } else {
        lemma_prefix_sums(ss, floor, i + 1);
        let p = ss.take(i + 1);
        assert(p.drop_last() =~= ss.take(i));
        assert(p.last() == ss[i]);
        assert forall|j: int| 0 <= j < ss.take(i).len() implies wf_shift(
            #[trigger] ss.take(i)[j],
        ) by {
            assert(ss.take(i)[j] == ss[j]);
        }
        lemma_sums_nonneg(ss.take(i), floor);
    }
}

proof fn lemma_sums_nonneg(ss: Seq<ShiftRecord>, floor: int)
    requires
        floor >= 0,
        forall|j: int| 0 <= j < ss.len() ==> wf_shift(#[trigger] ss[j]),
    ensures
        sum_billed(ss, floor) >= 0,
        sum_hours_driven(ss) >= 0,
        sum_miles(ss) >= 0,
        sum_expense(ss) >= 0,
    decreases ss.len(),
{
    if ss.len() > 0 {
        assert(ss.last() == ss[ss.len() - 1]);
        assert forall|j: int| 0 <= j < ss.drop_last().len() implies wf_shift(
            #[trigger] ss.drop_last()[j],
        ) by {
            assert(ss.drop_last()[j] == ss[j]);
        }
        lemma_sums_nonneg(ss.drop_last(), floor);
    }
}

/// Builds the payroll report for one worker and period: one row per shift,
/// in order, and the period totals over the complete shifts.
pub fn aggregate(shifts: &Vec<ShiftRecord>, floor_minutes: u32) -> (r: (
    Vec<ShiftEntry>,
    PayPeriodTotals,
))
    requires
        forall|j: int| 0 <= j < shifts@.len() ==> wf_shift(#[trigger] shifts@[j]),
        sum_billed(shifts@, floor_minutes as int) <= i64::MAX,
        sum_hours_driven(shifts@) <= i64::MAX,
        sum_miles(shifts@) <= i64::MAX,
        sum_expense(shifts@) <= i64::MAX,
    ensures
        r.0@.len() == shifts@.len(),
        forall|j: int| 0 <= j < shifts@.len() ==> entry_matches(
            #[trigger] r.0@[j],
            shifts@[j],
            floor_minutes as int,
        ),
        r.1.all_complete == all_complete(shifts@),
        r.1.billed == (if all_complete(shifts@) {
            Some(sum_billed(shifts@, floor_minutes as int) as i64)
        } else {
            None::<i64>
        }),
        r.1.hours_driven_h == sum_hours_driven(shifts@),
        r.1.miles_driven_h == sum_miles(shifts@),
        r.1.extra_expense_cents == sum_expense(shifts@),
{
    let floor: i64 = floor_minutes as i64;
    let mut entries: Vec<ShiftEntry> = Vec::new();
    let mut billed_acc: i64 = 0;
    let mut hours_acc: i64 = 0;
    let mut miles_acc: i64 = 0;
    let mut exp_acc: i64 = 0;
    let mut complete_all: bool = true;

    let mut i: usize = 0;
    while i < shifts.len()
        invariant
            0 <= i <= shifts.len(),
            floor == floor_minutes as i64,
            forall|j: int| 0 <= j < shifts@.len() ==> wf_shift(#[trigger] shifts@[j]),
            sum_billed(shifts@, floor_minutes as int) <= i64::MAX,
            sum_hours_driven(shifts@) <= i64::MAX,
            sum_miles(shifts@) <= i64::MAX,
            sum_expense(shifts@) <= i64::MAX,
            entries@.len() == i,
            forall|j: int| 0 <= j < i ==> entry_matches(
                #[trigger] entries@[j],
                shifts@[j],
                floor_minutes as int,
            ),
            billed_acc == sum_billed(shifts@.take(i as int), floor_minutes as int),
            hours_acc == sum_hours_driven(shifts@.take(i as int)),
            miles_acc == sum_miles(shifts@.take(i as int)),
            exp_acc == sum_expense(shifts@.take(i as int)),
            complete_all == all_complete(shifts@.take(i as int)),
        decreases shifts.len() - i,
    {
        let s = &shifts[i];
        proof {
            assert(shifts@[i as int] == shifts[i as int]);
            lemma_prefix_sums(shifts@, floor_minutes as int, i + 1);
            assert(shifts@.take(i + 1 as int).drop_last() =~= shifts@.take(i as int));
            assert(shifts@.take(i + 1 as int).last() == shifts@[i as int]);
        }

        let completed = s.sign_in.is_some() && s.sign_out.is_some();
        let (bm, rm): (Option<i64>, Option<i64>) = match (s.sign_in, s.sign_out) {
            (Some(t_in), Some(t_out)) => {
                let raw: i64 = t_out as i64 - t_in as i64;
                let b: i64 = if raw < floor {
                    floor
                } else {
                    raw
                };
                (Some(b), Some(raw))
            },
            _ => (None, None),
        };

        if completed {
            let b = match bm {
                Some(b) => b,
                None => 0,
            };
            billed_acc = billed_acc + b;
            hours_acc = hours_acc + s.hours_driven_h;
            miles_acc = miles_acc + s.miles_driven_h;
            exp_acc = exp_acc + s.extra_expense_cents;
        } else {
            complete_all = false;
        }

        let entry = ShiftEntry {
            job_id: s.job_id,
            worker_id: s.worker_id,
            date: s.date,
            site_name: s.site_name.clone(),
            using_flat_rate: s.using_flat_rate,
            completed,
            billed: bm,
            raw: rm,
            hours_driven_h: s.hours_driven_h,
            miles_driven_h: s.miles_driven_h,
            extra_expense_cents: s.extra_expense_cents,
        };
        entries.push(entry);

        proof {
            assert(entry_matches(entries@[i as int], shifts@[i as int], floor_minutes as int));
            assert(all_complete(shifts@.take(i + 1 as int)) == (all_complete(
                shifts@.take(i as int),
            ) && shift_complete(shifts@[i as int]))) by {
                let pre = shifts@.take(i as int);
                let post = shifts@.take(i + 1 as int);
                if all_complete(pre) && shift_complete(shifts@[i as int]) {
                    assert forall|k: int| 0 <= k < post.len() implies shift_complete(
                        #[trigger] post[k],
                    ) by {
                        if k < i {
                            assert(post[k] == pre[k]);
                        }
                    }
                }
                if all_complete(post) {
                    assert forall|k: int| 0 <= k < pre.len() implies shift_complete(
                        #[trigger] pre[k],
                    ) by {
                        assert(pre[k] == post[k]);
                    }
                    assert(post[i as int] == shifts@[i as int]);
                }
            }
        }
        i += 1;
    }
    proof {
        assert(shifts@.take(shifts@.len() as int) =~= shifts@);
    }

    let totals = PayPeriodTotals {
        billed: if complete_all {
            Some(billed_acc)
        } else {
            None
        },
        hours_driven_h: hours_acc,
        miles_driven_h: miles_acc,
        extra_expense_cents: exp_acc,
        all_complete: complete_all,
    };
    (entries, totals)
}

/// The largest span of minutes the display conversion accepts either way
/// from zero: a hundredfold of it still fits an `i64`.
pub const MINUTE_DISPLAY_BOUND: i64 = 92000000000000000;

/// Hundredths of hours for a span of minutes, rounded half up at the second
/// decimal; the sign is carried through.
pub open spec fn minutes_to_hundredths(m: int) -> int {
    if m >= 0 {
        (m * 100 + 30) / 60
    } else {
        -(((-m) * 100 + 30) / 60)
    }
}

/// Converts minutes to hundredths of hours for display.
pub fn minutes_to_hours_h(m: i64) -> (r: i64)
    requires
        -MINUTE_DISPLAY_BOUND <= m <= MINUTE_DISPLAY_BOUND,
    ensures
        r == minutes_to_hundredths(m as int),
{
    if m >= 0 {
        (m * 100 + 30) / 60
    } else {
        let mm = -m;
        -((mm * 100 + 30) / 60)
    }
}

/// One rendered row of the worker-data page: every figure as the display
/// string the template interpolates.
pub struct WDEntry {
    pub job_id: i64,
    pub worker_id: i64,
    pub date: String,
    pub location: String,
    pub flat_rate: bool,
    pub hours_worked: String,
    pub true_hours_worked: String,
    pub hours_driven: String,
    pub miles_driven: String,
    pub extra_expense: String,
    pub completed: bool,
}

/// The sentinel shown where an incomplete shift has no worked hours yet.
pub open spec fn not_applicable() -> Seq<char> {
    "N/A"@
}

/// The display string for an optional span of minutes: its hours to two
/// decimals, or the sentinel.
pub open spec fn opt_minutes_string(m: Option<i64>) -> Seq<char> {
    match m {
        Some(v) => signed_hundredths_string(minutes_to_hundredths(v as int)),
        None => not_applicable(),
    }
}

/// Renders one report row: worked hours appear only for a complete shift,
/// an incomplete one shows the sentinel instead.
pub fn render_entry(e: &ShiftEntry) -> (r: WDEntry)
    requires
        valid_date(e.date),
        (e.billed matches Some(b) ==> -MINUTE_DISPLAY_BOUND <= b <= MINUTE_DISPLAY_BOUND),
        (e.raw matches Some(b) ==> -MINUTE_DISPLAY_BOUND <= b <= MINUTE_DISPLAY_BOUND),
        e.hours_driven_h > i64::MIN,
        e.miles_driven_h > i64::MIN,
        e.extra_expense_cents > i64::MIN,
    ensures
        r.job_id == e.job_id,
        r.worker_id == e.worker_id,
        r.date@ == iso_date_string(e.date),
        r.location@ == e.site_name@,
        r.flat_rate == e.using_flat_rate,
        r.hours_worked@ == opt_minutes_string(e.billed),
        r.true_hours_worked@ == opt_minutes_string(e.raw),
        r.hours_driven@ == signed_hundredths_string(e.hours_driven_h as int),
        r.miles_driven@ == signed_hundredths_string(e.miles_driven_h as int),
        r.extra_expense@ == signed_hundredths_string(e.extra_expense_cents as int),
        r.completed == e.completed,
{
    let hours_worked = match e.billed {
        Some(b) => format_hundredths(minutes_to_hours_h(b)),
        None => na_string(),
    };
    let true_hours_worked = match e.raw {
        Some(b) => format_hundredths(minutes_to_hours_h(b)),
        None => na_string(),
    };
    WDEntry {
        job_id: e.job_id,
        worker_id: e.worker_id,
        date: format_iso_date(e.date),
        location: e.site_name.clone(),
        flat_rate: e.using_flat_rate,
        hours_worked,
        true_hours_worked,
        hours_driven: format_hundredths(e.hours_driven_h),
        miles_driven: format_hundredths(e.miles_driven_h),
        extra_expense: format_hundredths(e.extra_expense_cents),
        completed: e.completed,
    }
}

/// Renders the totals row: the period's worked hours appear only when every
/// shift of the period is complete.
pub fn render_totals(t: &PayPeriodTotals) -> (r: WDEntry)
    requires
        (t.billed matches Some(b) ==> -MINUTE_DISPLAY_BOUND <= b <= MINUTE_DISPLAY_BOUND),
        t.hours_driven_h > i64::MIN,
        t.miles_driven_h > i64::MIN,
        t.extra_expense_cents > i64::MIN,
    ensures
        r.job_id == -1,
        r.worker_id == -1,
        r.date@ == Seq::<char>::empty(),
        r.location@ == Seq::<char>::empty(),
        r.flat_rate == false,
        r.hours_worked@ == opt_minutes_string(t.billed),
        r.true_hours_worked@ == Seq::<char>::empty(),
        r.hours_driven@ == signed_hundredths_string(t.hours_driven_h as int),
        r.miles_driven@ == signed_hundredths_string(t.miles_driven_h as int),
        r.extra_expense@ == signed_hundredths_string(t.extra_expense_cents as int),
        r.completed == t.all_complete,
{
    let hours_worked = match t.billed {
        Some(b) => format_hundredths(minutes_to_hours_h(b)),
        None => na_string(),
    };
    WDEntry {
        job_id: -1,
        worker_id: -1,
        date: String::new(),
        location: String::new(),
        flat_rate: false,
        hours_worked,
        true_hours_worked: String::new(),
        hours_driven: format_hundredths(t.hours_driven_h),
        miles_driven: format_hundredths(t.miles_driven_h),
        extra_expense: format_hundredths(t.extra_expense_cents),
        completed: t.all_complete,
    }
}

fn na_string() -> (r: String)
    ensures
        r@ == not_applicable(),
{
    String::from_str("N/A")
}

/// Billable hours of one completed shift, in hundredths of an hour: the
/// elapsed time floored at the minimum billable minutes per visit.
pub fn hours_worked(sign_in: u32, sign_out: u32, floor_minutes: u32) -> (r: i64)
    requires
        sign_in < 1440,
        sign_out < 1440,
        floor_minutes < 1440,
    ensures
        r == minutes_to_hundredths(
            if sign_out - sign_in < floor_minutes {
                floor_minutes as int
            } else {
                sign_out - sign_in
            },
        ),
{
    let raw: i64 = sign_out as i64 - sign_in as i64;
    let billed: i64 = if raw < floor_minutes as i64 {
        floor_minutes as i64
    } else {
        raw
    };
    minutes_to_hours_h(billed)
}

} // verus!
