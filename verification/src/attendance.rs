//! Attendance (`hr.attendance`): the employee's presence status as Odoo
//! reports it, what check-in and check-out may do, and how a polled status
//! is compared with the last one seen.
use vstd::prelude::*;

use crate::error::AppError;
use crate::models::{field_int, field_opt_text, field_text, get_opt_string, opt_text_view};
use crate::xmlrpc::{Val, XmlRpcValue, deep_items, lemma_deep_items, struct_get};
use vstd::string::StringExecFns;

verus! {

/// Whether the employee is checked in, and since when.
#[derive(Debug, Clone)]
pub struct AttendanceStatus {
    pub is_checked_in: bool,
    pub attendance_id: Option<i64>,
    pub check_in_time: Option<String>,
}

/// What a check-in created.
#[derive(Debug, Clone)]
pub struct AttendanceCheckInResult {
    pub attendance_id: i64,
    pub check_in_time: String,
}

pub struct StatusView {
    pub is_checked_in: bool,
    pub attendance_id: Option<i64>,
    pub check_in_time: Option<Seq<char>>,
}

impl View for AttendanceStatus {
    type V = StatusView;

    open spec fn view(&self) -> StatusView {
        StatusView {
            is_checked_in: self.is_checked_in,
            attendance_id: self.attendance_id,
            check_in_time: opt_text_view(self.check_in_time),
        }
    }
}

pub open spec fn not_checked_in() -> StatusView {
    StatusView { is_checked_in: false, attendance_id: None, check_in_time: None }
}

/// The status an open-attendance search reply gives: no record means not
/// checked in; the first record must be a struct with an integer id.
pub open spec fn status_of(records: Seq<Val>) -> Result<StatusView, Seq<char>> {
    if records.len() == 0 {
        Ok(not_checked_in())
    } else {
        match records[0] {
            Val::Struct(ms) => match field_int(ms, "id"@) {
                Some(id) => Ok(
                    StatusView {
                        is_checked_in: true,
                        attendance_id: Some(id),
                        check_in_time: Some(field_text(ms, "check_in"@)),
                    },
                ),
                None => Err("Missing id in attendance record"@),
            },
            _ => Err("Expected struct for attendance record"@),
        }
    }
}

pub fn status_from_records(records: &[XmlRpcValue]) -> (res: Result<AttendanceStatus, AppError>)
    ensures
        match (res, status_of(deep_items(records@))) {
            (Ok(s), Ok(v)) => s@ == v,
            (Err(e), Err(m)) => e is Odoo && e.text() == m,
            _ => false,
        },
{
    proof {
        lemma_deep_items(records@);
    }
    if records.len() == 0 {
        return Ok(AttendanceStatus { is_checked_in: false, attendance_id: None, check_in_time: None });
    }
    let map = match &records[0] {
        XmlRpcValue::Struct(m) => m,
        _ => {
            return Err(AppError::Odoo(String::from_str("Expected struct for attendance record")));
        },
    };
    let id = match struct_get(map, "id") {
        Some(v) => v.as_i64(),
        None => None,
    };
    let id = match id {
        Some(i) => i,
        None => {
            return Err(AppError::Odoo(String::from_str("Missing id in attendance record")));
        },
    };
    let check_in = match struct_get(map, "check_in") {
        Some(v) => match v.as_str() {
            Some(s) => String::from_str(s),
            None => String::new(),
        },
        None => String::new(),
    };
    Ok(AttendanceStatus { is_checked_in: true, attendance_id: Some(id), check_in_time: Some(check_in) })
}

/// The employee an attendance action is for; an account without one cannot
/// check in or out.
pub fn require_employee(employee_id: Option<i64>) -> (res: Result<i64, AppError>)
    ensures
        match employee_id {
            Some(e) => res == Ok::<i64, AppError>(e),
            None => res matches Err(e) && e is Odoo && e.text() == "No employee record linked to this user"@,
        },
{
    match employee_id {
        Some(e) => Ok(e),
        None => Err(AppError::Odoo(String::from_str("No employee record linked to this user"))),
    }
}

/// A check-in is refused while one is open.
pub fn check_in_allowed(status: &AttendanceStatus) -> (res: Result<(), AppError>)
    ensures
        status.is_checked_in <==> res is Err,
        res matches Err(e) ==> e is Odoo && e.text() == "Already checked in"@,
{
    if status.is_checked_in {
        Err(AppError::Odoo(String::from_str("Already checked in")))
    } else {
        Ok(())
    }
}

/// The attendance a check-out closes: the open one, if any.
pub fn check_out_target(status: &AttendanceStatus) -> (res: Result<i64, AppError>)
    ensures
        match status.attendance_id {
            Some(id) => res == Ok::<i64, AppError>(id),
            None => res matches Err(e) && e is Odoo && e.text() == "Not checked in"@,
        },
{
    match status.attendance_id {
        Some(id) => Ok(id),
        None => Err(AppError::Odoo(String::from_str("Not checked in"))),
    }
}

/// The status right after a check-in.
pub fn status_after_check_in(attendance_id: i64, time: String) -> (s: AttendanceStatus)
    ensures
        s@ == (StatusView { is_checked_in: true, attendance_id: Some(attendance_id), check_in_time: Some(time@) }),
{
    AttendanceStatus { is_checked_in: true, attendance_id: Some(attendance_id), check_in_time: Some(time) }
}

/// The status right after a check-out.
pub fn status_after_check_out() -> (s: AttendanceStatus)
    ensures
        s@ == not_checked_in(),
{
    AttendanceStatus { is_checked_in: false, attendance_id: None, check_in_time: None }
}

fn same_status(a: &AttendanceStatus, b: &AttendanceStatus) -> (res: bool)
    ensures
        res == (a@ == b@),
{
    let same_time = match (&a.check_in_time, &b.check_in_time) {
        (Some(x), Some(y)) => crate::timer::str_eq(x.as_str(), y.as_str()),
        (None, None) => true,
        _ => false,
    };
    a.is_checked_in == b.is_checked_in && a.attendance_id == b.attendance_id && same_time
}

/// What a polled status means against the last one seen.
#[derive(Debug, Clone, Copy, PartialEq, Eq)]
pub struct AttendanceChange {
    /// The status differs from the last one seen (or none was seen).
    pub changed: bool,
    /// The employee has just been found checked out: a running timer stops.
    pub stop_timer: bool,
}

/// A polled status differs from the last one seen (or none was seen).
pub open spec fn status_changed(last: Option<StatusView>, status: StatusView) -> bool {
    match last {
        Some(l) => l != status,
        None => true,
    }
}

pub open spec fn last_view(last: Option<AttendanceStatus>) -> Option<StatusView> {
    match last {
        Some(l) => Some(l@),
        None => None,
    }
}

/// Compares a polled status with the last one seen and remembers it when it changed.
pub fn observe_status(last: &mut Option<AttendanceStatus>, status: &AttendanceStatus) -> (c: AttendanceChange)
    ensures
        c.changed == status_changed(last_view(*old(last)), status@),
        c.stop_timer == (c.changed && !status.is_checked_in),
        c.changed ==> (*final(last) matches Some(l) && l@ == status@),
        !c.changed ==> *final(last) == *old(last),
{
    let changed = match last {
        Some(l) => !same_status(l, status),
        None => true,
    };
    if changed {
        *last = Some(status.clone_status());
    }
    AttendanceChange { changed, stop_timer: changed && !status.is_checked_in }
}

impl AttendanceStatus {
    /// A copy of the status.
    pub fn clone_status(&self) -> (s: AttendanceStatus)
        ensures
            s@ == self@,
    {
        AttendanceStatus {
            is_checked_in: self.is_checked_in,
            attendance_id: self.attendance_id,
            check_in_time: match &self.check_in_time {
                Some(t) => Some(t.clone()),
                None => None,
            },
        }
    }
}

/// `(check_in, check_out)` of each struct record, in order: the check-in
/// text (empty when missing), the check-out when it is a text.
pub open spec fn attendance_rows_of(records: Seq<Val>) -> Seq<(Seq<char>, Option<Seq<char>>)>
    decreases records.len(),
{
    if records.len() == 0 {
        Seq::empty()
    } else {
        let before = attendance_rows_of(records.drop_last());
        match records.last() {
            Val::Struct(ms) => before.push((field_text(ms, "check_in"@), field_opt_text(ms, "check_out"@))),
            _ => before,
        }
    }
}

pub fn attendance_rows(records: &[XmlRpcValue]) -> (res: Vec<(String, Option<String>)>)
    ensures
        res@.map_values(|r: (String, Option<String>)| (r.0@, opt_text_view(r.1))) == attendance_rows_of(deep_items(records@)),
{
    proof {
        lemma_deep_items(records@);
    }
    let mut res: Vec<(String, Option<String>)> = Vec::new();
    let mut i: usize = 0;
    while i < records.len()
        invariant
            i <= records@.len(),
            deep_items(records@).len() == records@.len(),
            forall|j: int| 0 <= j < records@.len() ==> deep_items(records@)[j] == (#[trigger] records@[j]).deep(),
            res@.map_values(|r: (String, Option<String>)| (r.0@, opt_text_view(r.1))) == attendance_rows_of(
                deep_items(records@).take(i as int),
            ),
        decreases records@.len() - i,
    {
        let ghost before = res@;
        assert(deep_items(records@).take(i + 1).drop_last() == deep_items(records@).take(i as int));
        match &records[i] {
            XmlRpcValue::Struct(map) => {
                let check_in = match struct_get(map, "check_in") {
                    Some(v) => match v.as_str() {
                        Some(s) => String::from_str(s),
                        None => String::new(),
                    },
                    None => String::new(),
                };
                let check_out = get_opt_string(map, "check_out");
                res.push((check_in, check_out));
                assert(res@.map_values(|r: (String, Option<String>)| (r.0@, opt_text_view(r.1))) =~= before.map_values(
                    |r: (String, Option<String>)| (r.0@, opt_text_view(r.1)),
                ).push((res@.last().0@, opt_text_view(res@.last().1))));
            },
            _ => {},
        }
        i += 1;
    }
    assert(deep_items(records@).take(records@.len() as int) == deep_items(records@));
    res
}

} // verus!
