//! The running timer as the local database keeps it across restarts: the
//! row written for a running timer and the state read back from it.
use vstd::prelude::*;

use crate::error::AppError;
use crate::timer::{SessionMeta, TimerState};
use vstd::string::StringExecFns;

verus! {

/// What `DateTime::<Utc>::from_timestamp_nanos` followed by `to_rfc3339`
/// makes of an instant given in nanoseconds since the epoch.
pub uninterp spec fn rfc3339_text(ns: i64) -> Seq<char>;

/// What `DateTime::parse_from_rfc3339` followed by `timestamp_nanos_opt`
/// makes of a text: the instant in nanoseconds since the epoch (`None` when it
/// lies beyond what an `i64` of nanoseconds holds), or the parser's error
/// message.
pub uninterp spec fn rfc3339_parse(s: Seq<char>) -> Result<Option<i64>, Seq<char>>;

/// `chrono::DateTime::<Utc>::from_timestamp_nanos(ns)` then `to_rfc3339()`.
/// The text is a function of `ns` alone. Every such instant lies in the
/// years 1677 to 2262, for which the writer (`write_rfc3339`: four-digit
/// year, the sub-second digits that are not zero in groups of 3, 6 or 9,
/// `+00:00`) produces a text that `parse_from_rfc3339` reads back to the same
/// nanosecond.
#[verifier::external_body]
fn rfc3339_of_nanos(ns: i64) -> (r: String)
    ensures
        r@ == rfc3339_text(ns),
        match r {
            t => rfc3339_parse(t@) == Ok::<Option<i64>, Seq<char>>(Some(ns)),
        },
{
    chrono::DateTime::from_timestamp_nanos(ns).to_rfc3339()
}

/// `chrono::DateTime::parse_from_rfc3339(s)` then `timestamp_nanos_opt()`, or
/// the parse error's message. The result is a function of `s` alone.
#[verifier::external_body]
fn nanos_of_rfc3339(s: &str) -> (r: Result<Option<i64>, String>)
    ensures
        match (r, rfc3339_parse(s@)) {
            (Ok(a), Ok(b)) => a == b,
            (Err(a), Err(b)) => a@ == b,
            _ => false,
        },
{
    match chrono::DateTime::parse_from_rfc3339(s) {
        Ok(d) => Ok(d.timestamp_nanos_opt()),
        Err(e) => Err(e.to_string()),
    }
}

/// The single row kept for a running timer. `start_utc` is RFC 3339 text;
/// `accumulated_secs` is stored as the database's signed integer.
#[derive(Debug, Clone)]
pub struct TimerRow {
    pub task_id: i64,
    pub task_name: String,
    pub project_id: i64,
    pub project_name: String,
    pub start_utc: String,
    pub accumulated_secs: i64,
    pub session_id: String,
    pub origin_device: String,
    pub origin_label: String,
    pub odoo_line_id: Option<i64>,
}

/// A timer recovered from the database. `start_ns` is in nanoseconds since
/// the epoch.
#[derive(Debug, Clone)]
pub struct SavedTimerState {
    pub task_id: i64,
    pub task_name: String,
    pub project_id: i64,
    pub project_name: String,
    pub start_ns: i64,
    pub accumulated_secs: u64,
    pub session: SessionMeta,
}

/// The saved state carries the given running state's fields.
pub open spec fn saved_matches(s: SavedTimerState, st: TimerState) -> bool {
    match st {
        TimerState::Running { task_id, task_name, project_id, project_name, start_time, accumulated_secs, session } => {
            &&& s.task_id == task_id
            &&& s.task_name@ == task_name@
            &&& s.project_id == project_id
            &&& s.project_name@ == project_name@
            &&& s.start_ns == start_time
            &&& s.accumulated_secs == accumulated_secs
            &&& s.session.session_id@ == session.session_id@
            &&& s.session.origin_device@ == session.origin_device@
            &&& s.session.origin_label@ == session.origin_label@
            &&& s.session.odoo_line_id == session.odoo_line_id
        },
        TimerState::Idle => false,
    }
}

/// The error of a stored start that does not parse.
pub open spec fn bad_start_text(reason: Seq<char>) -> Seq<char> {
    "Failed to parse saved timer start_utc: "@ + reason
}

/// `s` is what reading `row` gives: its fields, the start its text parses
/// to, and the stored count reinterpreted as unsigned.
pub open spec fn read_back(row: TimerRow, s: SavedTimerState) -> bool {
    &&& s.task_id == row.task_id
    &&& s.task_name@ == row.task_name@
    &&& s.project_id == row.project_id
    &&& s.project_name@ == row.project_name@
    &&& rfc3339_parse(row.start_utc@) == Ok::<Option<i64>, Seq<char>>(Some(s.start_ns))
    &&& s.accumulated_secs == row.accumulated_secs as u64
    &&& s.session.session_id@ == row.session_id@
    &&& s.session.origin_device@ == row.origin_device@
    &&& s.session.origin_label@ == row.origin_label@
    &&& s.session.odoo_line_id == row.odoo_line_id
}

/// `row` is what writing the running state `st` gives: its fields, the
/// start as RFC 3339 text, and the count as the column's signed integer.
pub open spec fn row_holds(row: TimerRow, st: TimerState) -> bool {
    match st {
        TimerState::Running { task_id, task_name, project_id, project_name, start_time, accumulated_secs, session } => {
            &&& row.task_id == task_id
            &&& row.task_name@ == task_name@
            &&& row.project_id == project_id
            &&& row.project_name@ == project_name@
            &&& rfc3339_text(start_time) == row.start_utc@
            &&& row.accumulated_secs == accumulated_secs as i64
            &&& row.session_id@ == session.session_id@
            &&& row.origin_device@ == session.origin_device@
            &&& row.origin_label@ == session.origin_label@
            &&& row.odoo_line_id == session.odoo_line_id
        },
        TimerState::Idle => false,
    }
}

/// The error of a stored start beyond what the timer can hold.
pub open spec fn far_start_text() -> Seq<char> {
    "Saved timer start is out of range"@
}

/// Read a stored row back into a timer. The start must parse as RFC 3339
/// and lie within the nanosecond range of an `i64`; the stored count is
/// reinterpreted as unsigned, as the database column is signed.
pub fn saved_timer_state(row: TimerRow) -> (res: Result<SavedTimerState, AppError>)
    ensures
        match rfc3339_parse(row.start_utc@) {
            Ok(Some(ns)) => res matches Ok(s) && read_back(row, s),
            Ok(None) => res matches Err(e) && e is General && e.text() == far_start_text(),
            Err(reason) => res matches Err(e) && e is General && e.text() == bad_start_text(reason),
        },
{
    let start = match nanos_of_rfc3339(row.start_utc.as_str()) {
        Ok(Some(ns)) => ns,
        Ok(None) => {
            return Err(AppError::General(String::from_str("Saved timer start is out of range")));
        },
        Err(reason) => {
            let mut m = String::from_str("Failed to parse saved timer start_utc: ");
            m.append(reason.as_str());
            return Err(AppError::General(m));
        },
    };
    Ok(
        SavedTimerState {
            task_id: row.task_id,
            task_name: row.task_name,
            project_id: row.project_id,
            project_name: row.project_name,
            start_ns: start,
            accumulated_secs: row.accumulated_secs as u64,
            session: SessionMeta {
                session_id: row.session_id,
                origin_device: row.origin_device,
                origin_label: row.origin_label,
                odoo_line_id: row.odoo_line_id,
            },
        },
    )
}

/// The row to keep for a timer: none when it is idle (the row is cleared);
/// for a running timer its fields, the start as RFC 3339 text and the count
/// as the column's signed integer. The start's text reads back as the same
/// nanosecond.
pub fn timer_row(state: &TimerState) -> (res: Result<Option<TimerRow>, AppError>)
    ensures
        state is Idle ==> res matches Ok(None),
        match *state {
            TimerState::Running { start_time, .. } => res matches Ok(Some(row)) && row_holds(row, *state)
                && rfc3339_parse(row.start_utc@) == Ok::<Option<i64>, Seq<char>>(Some(start_time)),
            TimerState::Idle => true,
        },
{
    match state {
        TimerState::Idle => Ok(None),
        TimerState::Running { task_id, task_name, project_id, project_name, start_time, accumulated_secs, session } => {
            let start = rfc3339_of_nanos(*start_time);
            Ok(
                Some(
                    TimerRow {
                        task_id: *task_id,
                        task_name: task_name.clone(),
                        project_id: *project_id,
                        project_name: project_name.clone(),
                        start_utc: start,
                        accumulated_secs: *accumulated_secs as i64,
                        session_id: session.session_id.clone(),
                        origin_device: session.origin_device.clone(),
                        origin_label: session.origin_label.clone(),
                        odoo_line_id: session.odoo_line_id,
                    },
                ),
            )
        },
    }
}

/// A running timer written as a row and read back is the same run: same
/// task, project, start, accumulated seconds and session.
pub proof fn law_saved_timer_reads_back(st: TimerState, row: TimerRow, saved: SavedTimerState)
    requires
        st is Running,
        row_holds(row, st),
        rfc3339_parse(row.start_utc@) == Ok::<Option<i64>, Seq<char>>(Some(st->start_time)),
        read_back(row, saved),
    ensures
        saved_matches(saved, st),
{
    let acc = st->accumulated_secs;
    assert(((acc as i64) as u64) == acc) by (bit_vector);
}

} // verus!
