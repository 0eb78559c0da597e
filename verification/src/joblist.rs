//! The job list: status classification, search filtering and display rows.
//!
//! Each queried row joins a job with one worker's record on it. A row's
//! status follows from the recorded times: signed in and out, only in,
//! only out, or neither — where a row with no times but with any recorded
//! driving, expense or note data already counts as started.

use vstd::prelude::*;
use vstd::string::StrSliceExecFns;

use crate::dates::Date;
use crate::dates::format_long_date;
use crate::dates::long_date_string;
use crate::dates::valid_date;

verus! {

/// Sort order of the job list.
#[derive(Debug, Clone, Copy, PartialEq, Eq, Structural)]
pub enum Order {
    Latest,
    Earliest,
}

/// One row of the job search query: a job joined with one worker's record,
/// or a job with no worker at all. Hour and mileage figures are hundredths.
pub struct JobQueryOutput {
    pub name: String,
    pub id: i64,
    pub worker: Option<i64>,
    pub sitename: String,
    pub address: String,
    pub date: Date,
    pub notes: String,
    pub workorder: String,
    pub servicecode: String,
    pub signin: Option<String>,
    pub signout: Option<String>,
    pub workernotes: Option<String>,
    pub miles_driven_h: Option<i64>,
    pub hours_driven_h: Option<i64>,
    pub extraexpcents: Option<i64>,
}

/// One rendered row of the job list.
pub struct JobData {
    pub job_id: i64,
    pub worker_id: Option<i64>,
    pub worker_name: String,
    pub job_name: String,
    pub address: String,
    pub date: String,
    pub notes: String,
    pub work_order: String,
    pub service_code: String,
    pub status: String,
}

/// The search parameters echoed back into the form.
pub struct SearchParams {
    pub start: String,
    pub end: String,
    pub site_name: String,
    pub work_order: String,
    pub address: String,
    pub fieldnotes: String,
    pub workers: Vec<(i64, String, bool)>,
}

/// Where one job-worker row stands.
#[derive(Debug, Clone, Copy, PartialEq, Eq, Structural)]
pub enum JobStatus {
    /// No times and no recorded data yet.
    Assigned,
    /// Signed in, or data recorded without times.
    Started,
    /// Signed out without ever signing in.
    OutNotIn,
    /// Signed in and out.
    SignedOut,
}

/// A row with no times still counts as started once any driving, expense or
/// note data is recorded on it.
pub open spec fn has_recorded_data(j: JobQueryOutput) -> bool {
    ||| j.hours_driven_h != Some(0i64)
    ||| j.miles_driven_h != Some(0i64)
    ||| j.extraexpcents != Some(0i64)
    ||| !(j.workernotes matches Some(w) && w@.len() == 0)
}

pub open spec fn status_of(j: JobQueryOutput) -> JobStatus {
    match (j.signin, j.signout) {
        (None, None) => if has_recorded_data(j) {
            JobStatus::Started
        } else {
            JobStatus::Assigned
        },
        (None, Some(_)) => JobStatus::OutNotIn,
        (Some(_), None) => JobStatus::Started,
        (Some(_), Some(_)) => JobStatus::SignedOut,
    }
}

pub open spec fn status_string(st: JobStatus) -> Seq<char> {
    match st {
        JobStatus::Assigned => "assigned"@,
        JobStatus::Started => "started"@,
        JobStatus::OutNotIn => "outnotin"@,
        JobStatus::SignedOut => "signedout"@,
    }
}

/// Whether the search filters keep a row of this status; a signed-out-only
/// row is always shown.
pub open spec fn keep_status(st: JobStatus, assigned: bool, started: bool, completed: bool) -> bool {
    match st {
        JobStatus::Assigned => assigned,
        JobStatus::Started => started,
        JobStatus::OutNotIn => true,
        JobStatus::SignedOut => completed,
    }
}

/// The rows the filters keep, in order.
pub open spec fn kept_rows(
    js: Seq<JobQueryOutput>,
    assigned: bool,
    started: bool,
    completed: bool,
) -> Seq<JobQueryOutput>
    decreases js.len(),
{
    if js.len() == 0 {
        Seq::empty()
    } else {
        let rest = kept_rows(js.drop_last(), assigned, started, completed);
        if keep_status(status_of(js.last()), assigned, started, completed) {
            rest.push(js.last())
        } else {
            rest
        }
    }
}

/// How one display row renders one query row.
pub open spec fn job_data_matches(d: JobData, j: JobQueryOutput) -> bool {
    &&& d.job_id == j.id
    &&& d.worker_id == j.worker
    &&& d.worker_name@ == j.name@
    &&& d.job_name@ == j.sitename@
    &&& d.address@ == j.address@
    &&& d.date@ == long_date_string(j.date)
    &&& d.notes@ == j.notes@
    &&& d.work_order@ == j.workorder@
    &&& d.service_code@ == j.servicecode@
    &&& d.status@ == status_string(status_of(j))
}

fn status_of_exec(j: &JobQueryOutput) -> (r: JobStatus)
    ensures
        r == status_of(*j),
{
    match (&j.signin, &j.signout) {
        (None, None) => {
            let zero_hours = match j.hours_driven_h {
                Some(v) => v == 0,
                None => false,
            };
            let zero_miles = match j.miles_driven_h {
                Some(v) => v == 0,
                None => false,
            };
            let zero_exp = match j.extraexpcents {
                Some(v) => v == 0,
                None => false,
            };
            let empty_notes = match &j.workernotes {
                Some(w) => w.as_str().is_empty(),
                None => false,
            };
            if !zero_hours || !zero_miles || !zero_exp || !empty_notes {
                JobStatus::Started
            } else {
                JobStatus::Assigned
            }
        },
        (None, Some(_)) => JobStatus::OutNotIn,
        (Some(_), None) => JobStatus::Started,
        (Some(_), Some(_)) => JobStatus::SignedOut,
    }
}

fn status_str(st: JobStatus) -> (r: &'static str)
    ensures
        r@ == status_string(st),
{
    match st {
        JobStatus::Assigned => "assigned",
        JobStatus::Started => "started",
        JobStatus::OutNotIn => "outnotin",
        JobStatus::SignedOut => "signedout",
    }
}

impl JobData {
    /// Renders the query rows the filters keep, in order.
    pub fn from_outputs(jobs: Vec<JobQueryOutput>, assigned: bool, started: bool, completed: bool)
        -> (r: Vec<JobData>)
        requires
            forall|j: int| 0 <= j < jobs@.len() ==> valid_date((#[trigger] jobs@[j]).date),
        ensures
            r@.len() == kept_rows(jobs@, assigned, started, completed).len(),
            forall|j: int| 0 <= j < r@.len() ==> job_data_matches(
                #[trigger] r@[j],
                kept_rows(jobs@, assigned, started, completed)[j],
            ),
    {
        let mut r: Vec<JobData> = Vec::new();
        let mut i: usize = 0;
        proof {
            assert(jobs@.take(0) =~= Seq::<JobQueryOutput>::empty());
        }
        while i < jobs.len()
            invariant
                0 <= i <= jobs@.len(),
                forall|j: int| 0 <= j < jobs@.len() ==> valid_date((#[trigger] jobs@[j]).date),
                r@.len() == kept_rows(jobs@.take(i as int), assigned, started, completed).len(),
                forall|j: int| 0 <= j < r@.len() ==> job_data_matches(
                    #[trigger] r@[j],
                    kept_rows(jobs@.take(i as int), assigned, started, completed)[j],
                ),
            decreases jobs@.len() - i,
        {
            let j = &jobs[i];
            let ghost pre = kept_rows(jobs@.take(i as int), assigned, started, completed);
            proof {
                assert(jobs@.take(i + 1 as int).drop_last() =~= jobs@.take(i as int));
                assert(jobs@.take(i + 1 as int).last() == jobs@[i as int]);
            }
            let st = status_of_exec(j);
            let keep = match st {
                JobStatus::Assigned => assigned,
                JobStatus::Started => started,
                JobStatus::OutNotIn => true,
                JobStatus::SignedOut => completed,
            };
            if keep {
                let row = JobData {
                    job_id: j.id,
                    worker_id: j.worker,
                    worker_name: j.name.clone(),
                    job_name: j.sitename.clone(),
                    address: j.address.clone(),
                    date: format_long_date(j.date),
                    notes: j.notes.clone(),
                    work_order: j.workorder.clone(),
                    service_code: j.servicecode.clone(),
                    status: String::from_str(status_str(st)),
                };
                r.push(row);
                proof {
                    let post = kept_rows(jobs@.take(i + 1 as int), assigned, started, completed);
                    assert(post == pre.push(jobs@[i as int]));
                    assert forall|k: int| 0 <= k < r@.len() implies job_data_matches(
                        #[trigger] r@[k],
                        post[k],
                    ) by {
                        if k < r@.len() - 1 {
                            assert(r@[k] == r@.drop_last()[k]);
                            assert(post[k] == pre[k]);
                        } else {
                            assert(post[k] == jobs@[i as int]);
                        }
                    }
                }
            }
            i += 1;
        }
        proof {
            assert(jobs@.take(jobs@.len() as int) =~= jobs@);
        }
        r
    }
}

/// The filter flags of a search: a plain page view (no order field, so no
/// form was submitted) shows everything; a submitted form shows exactly what
/// its boxes name, an absent box meaning off.
pub fn search_flags(
    order: Option<Order>,
    assigned: Option<bool>,
    started: Option<bool>,
    completed: Option<bool>,
) -> (r: (bool, bool, bool))
    ensures
        order is None ==> r == (true, true, true),
        order is Some ==> r == (
            assigned == Some(true),
            started == Some(true),
            completed == Some(true),
        ),
{
    match order {
        None => (true, true, true),
        Some(_) => {
            let a = match assigned {
                Some(true) => true,
                _ => false,
            };
            let s = match started {
                Some(true) => true,
                _ => false,
            };
            let c = match completed {
                Some(true) => true,
                _ => false,
            };
            (a, s, c)
        },
    }
}

/// Marks each selectable worker with whether the submitted filter names
/// them; with no filter submitted every worker is selected.
pub fn mark_selected(workers: Vec<(i64, String)>, filter: &Option<Vec<i64>>) -> (r: Vec<
    (i64, String, bool),
>)
    ensures
        r@.len() == workers@.len(),
        forall|j: int| 0 <= j < r@.len() ==> {
            &&& (#[trigger] r@[j]).0 == workers@[j].0
            &&& r@[j].1@ == workers@[j].1@
            &&& r@[j].2 == (match filter {
                Some(ids) => ids@.contains(workers@[j].0),
                None => true,
            })
        },
{
    let mut r: Vec<(i64, String, bool)> = Vec::new();
    let mut i: usize = 0;
    while i < workers.len()
        invariant
            0 <= i <= workers@.len(),
            r@.len() == i,
            forall|j: int| 0 <= j < i ==> {
                &&& (#[trigger] r@[j]).0 == workers@[j].0
                &&& r@[j].1@ == workers@[j].1@
                &&& r@[j].2 == (match filter {
                    Some(ids) => ids@.contains(workers@[j].0),
                    None => true,
                })
            },
        decreases workers@.len() - i,
    {
        let id = workers[i].0;
        let name = workers[i].1.clone();
        let sel = match filter {
            Some(ids) => id_list_contains(ids, id),
            None => true,
        };
        r.push((id, name, sel));
        i += 1;
    }
    r
}

/// The worker ids a job search may reveal: a non-admin sees only their own
/// rows, and so does an admin who submitted no worker filter; an admin's
/// filter is taken as given.
pub fn job_search_scope(admin: bool, my_id: i64, filter: &Option<Vec<i64>>) -> (r: Vec<i64>)
    ensures
        (admin && filter is Some) ==> r@ == filter->0@,
        !(admin && filter is Some) ==> r@ =~= seq![my_id],
{
    match filter {
        Some(ids) if admin => {
            let mut r: Vec<i64> = Vec::new();
            let mut i: usize = 0;
            while i < ids.len()
                invariant
                    0 <= i <= ids@.len(),
                    r@ == ids@.take(i as int),
                decreases ids@.len() - i,
            {
                r.push(ids[i]);
                proof {
                    assert(r@ =~= ids@.take(i + 1 as int));
                }
                i += 1;
            }
            proof {
                assert(ids@.take(ids@.len() as int) =~= ids@);
            }
            r
        },
        _ => {
            let mut r: Vec<i64> = Vec::new();
            r.push(my_id);
            r
        },
    }
}

fn id_list_contains(v: &Vec<i64>, x: i64) -> (r: bool)
    ensures
        r == v@.contains(x),
{
    let mut i: usize = 0;
    while i < v.len()
        invariant
            0 <= i <= v@.len(),
            forall|j: int| 0 <= j < i ==> v@[j] != x,
        decreases v@.len() - i,
    {
        if v[i] == x {
            return true;
        }
        i += 1;
    }
    false
}

} // verus!
