//! How time reaches Odoo: the private-task fallback of a failed log, the
//! settling of a stopped session's outbox row, and the log form that may
//! amend a session's line after the run stopped.
use vstd::prelude::*;

use crate::error::AppError;
use crate::outbox::OutboxAction;
use crate::settings::DefaultTaskConfig;
use crate::sync::{lowercase_of, to_lowercase};
use crate::text::{contains_seq, find_chars, is_blank, to_chars, trim};
use vstd::string::StrSliceExecFns;
use vstd::string::StringExecFns;

verus! {

/// What a log request reports.
#[derive(Debug, Clone, Copy, PartialEq, Eq)]
pub struct LogTimeResult {
    pub success: bool,
    pub odoo_id: Option<i64>,
    pub queued: bool,
}

/// The result of a log: successful exactly when Odoo gave a line.
pub fn log_time_result(odoo_id: Option<i64>, queued: bool) -> (r: LogTimeResult)
    ensures
        r == (LogTimeResult { success: odoo_id is Some, odoo_id, queued }),
{
    LogTimeResult { success: odoo_id.is_some(), odoo_id, queued }
}

/// The description Odoo stores: the task's name when the description is blank.
pub open spec fn effective_text(description: Seq<char>, task_name: Seq<char>) -> Seq<char> {
    if trim(description).len() == 0 {
        task_name
    } else {
        description
    }
}

pub fn effective_description(description: &str, task_name: &str) -> (res: String)
    ensures
        res@ == effective_text(description@, task_name@),
{
    let cs = to_chars(description);
    if is_blank(cs.as_slice()) {
        String::from_str(task_name)
    } else {
        String::from_str(description)
    }
}

// ── The private-task fallback ────────────────────────────────────────

/// Odoo refused the line because the task is private.
pub open spec fn is_private_task_error(msg: Seq<char>) -> bool {
    contains_seq(lowercase_of(msg), "private task"@)
}

pub fn private_task_refusal(msg: &str) -> (b: bool)
    ensures
        b == is_private_task_error(msg@),
{
    let lower = to_lowercase(msg);
    let l = to_chars(lower.as_str());
    let key = to_chars("private task");
    find_chars(l.as_slice(), key.as_slice()).is_some()
}

/// What to do after Odoo refused a line.
#[derive(Debug, Clone)]
pub enum AfterRefusal {
    /// Log the time on the default task instead, naming the task first chosen.
    UseDefaultTask { task_id: i64, project_id: i64, task_name: String, project_name: String, description: String },
    /// Queue the entry as it was.
    Queue,
}

/// The description a redirected entry carries: `[task] description`.
pub open spec fn redirected_text(task_name: Seq<char>, description: Seq<char>) -> Seq<char> {
    "["@ + task_name + "] "@ + description
}

/// After a refusal: a private-task refusal goes to the default task when one
/// is configured; anything else is queued.
pub fn after_refusal(error: &str, default_task: Option<&DefaultTaskConfig>, task_name: &str, description: &str) -> (r: AfterRefusal)
    ensures
        match r {
            AfterRefusal::UseDefaultTask { task_id, project_id, task_name: t, project_name: p, description: d } =>
                is_private_task_error(error@) && (default_task matches Some(dt) && task_id == dt.task_id
                    && project_id == dt.project_id && t@ == dt.task_name@ && p@ == dt.project_name@
                    && d@ == redirected_text(task_name@, description@)),
            AfterRefusal::Queue => !is_private_task_error(error@) || default_task is None,
        },
{
    if private_task_refusal(error) {
        match default_task {
            Some(dt) => {
                let mut d = String::from_str("[");
                d.append(task_name);
                d.append("] ");
                d.append(description);
                AfterRefusal::UseDefaultTask {
                    task_id: dt.task_id,
                    project_id: dt.project_id,
                    task_name: dt.task_name.clone(),
                    project_name: dt.project_name.clone(),
                    description: d,
                }
            },
            None => AfterRefusal::Queue,
        }
    } else {
        AfterRefusal::Queue
    }
}

// ── Settling a stopped session ───────────────────────────────────────

/// What settling an outbox row takes.
#[derive(Debug, Clone, Copy, PartialEq, Eq)]
pub enum FlushStep {
    /// Rewrite the published live line with the final numbers.
    FinalizeLine(i64),
    /// The run never reached Odoo: log it the normal way.
    LogNew,
    /// Delete the published live line.
    DeleteLine(i64),
    /// Nothing was published, so nothing to delete.
    Nothing,
}

pub fn flush_step(action: OutboxAction, line: Option<i64>) -> (s: FlushStep)
    ensures
        s == match (action, line) {
            (OutboxAction::Finalize, Some(l)) => FlushStep::FinalizeLine(l),
            (OutboxAction::Finalize, None) => FlushStep::LogNew,
            (OutboxAction::Discard, Some(l)) => FlushStep::DeleteLine(l),
            (OutboxAction::Discard, None) => FlushStep::Nothing,
        },
{
    match (action, line) {
        (OutboxAction::Finalize, Some(l)) => FlushStep::FinalizeLine(l),
        (OutboxAction::Finalize, None) => FlushStep::LogNew,
        (OutboxAction::Discard, Some(l)) => FlushStep::DeleteLine(l),
        (OutboxAction::Discard, None) => FlushStep::Nothing,
    }
}

/// The line a settled row ended on: the one the step reported, else the one
/// the row already knew.
pub fn settled_line(reported: Option<i64>, known: Option<i64>) -> (l: Option<i64>)
    ensures
        l == match reported {
            Some(r) => Some(r),
            None => known,
        },
{
    match reported {
        Some(r) => Some(r),
        None => known,
    }
}

/// How long a stopped run stays amendable by its log form, in minutes.
pub const PENDING_LOG_TTL_MINS: i64 = 60;

/// A stopped run whose log form is open. `stopped_at` is in nanoseconds
/// since the Unix epoch.
#[derive(Debug, Clone)]
pub struct PendingLog {
    pub session_id: String,
    pub task_id: i64,
    pub odoo_line_id: Option<i64>,
    pub stopped_at: i64,
}

/// Tells an open log form where its session's line ended up.
pub fn note_pending_line(pending: &mut Option<PendingLog>, session_id: &str, line_id: Option<i64>)
    ensures
        match (*old(pending), line_id) {
            (Some(p), Some(l)) => if p.session_id@ == session_id@ {
                *final(pending) == Some(PendingLog { odoo_line_id: Some(l), ..p })
            } else {
                *final(pending) == *old(pending)
            },
            _ => *final(pending) == *old(pending),
        },
{
    match line_id {
        Some(l) => match pending {
            Some(p) => {
                if crate::timer::str_eq(p.session_id.as_str(), session_id) {
                    p.odoo_line_id = Some(l);
                }
            },
            None => {},
        },
        None => {},
    }
}

/// Whole minutes between two instants given in nanoseconds, rounded toward
/// zero.
pub open spec fn minutes_between(from: i64, to: i64) -> int {
    let d = to - from;
    if d >= 0 {
        d / 60_000_000_000
    } else {
        -((-d) / 60_000_000_000)
    }
}

/// What a log request does about an open log form.
#[derive(Debug, Clone, PartialEq, Eq)]
pub enum PendingUse {
    /// No form, or one for another task: the request is a new entry.
    NewEntry,
    /// The form is older than its time to live: it is dropped and the
    /// request is a new entry.
    Expired,
    /// The request settles that session (its id and known line).
    Settle { session_id: String, odoo_line_id: Option<i64> },
}

/// Decides what a log request for `task_id` at `now` (nanoseconds) does about the
/// open log form, and clears the form unless it belongs to another task.
pub fn take_pending(pending: &mut Option<PendingLog>, task_id: i64, now: i64) -> (u: PendingUse)
    ensures
        match *old(pending) {
            None => u == PendingUse::NewEntry && *final(pending) == *old(pending),
            Some(p) => if p.task_id != task_id {
                u == PendingUse::NewEntry && *final(pending) == *old(pending)
            } else if minutes_between(p.stopped_at, now) >= PENDING_LOG_TTL_MINS {
                u == PendingUse::Expired && *final(pending) is None
            } else {
                (u matches PendingUse::Settle { session_id, odoo_line_id } && session_id@ == p.session_id@
                    && odoo_line_id == p.odoo_line_id) && *final(pending) is None
            },
        },
{
    let p = match pending {
        None => {
            return PendingUse::NewEntry;
        },
        Some(p) => p,
    };
    if p.task_id != task_id {
        return PendingUse::NewEntry;
    }
    let d = (now as i128) - (p.stopped_at as i128);
    let mins: i128 = if d >= 0 { d / 60_000_000_000 } else { -((-d) / 60_000_000_000) };
    if mins >= PENDING_LOG_TTL_MINS as i128 {
        *pending = None;
        return PendingUse::Expired;
    }
    let u = PendingUse::Settle { session_id: p.session_id.clone(), odoo_line_id: p.odoo_line_id };
    *pending = None;
    u
}

/// Settling while offline: the queued row carries the work.
pub fn settled_offline() -> (r: LogTimeResult)
    ensures
        r == (LogTimeResult { success: false, odoo_id: None, queued: true }),
{
    LogTimeResult { success: false, odoo_id: None, queued: true }
}

/// Settling through the outbox row: `Some(line)` when the row was settled
/// (a `None` line means it went to the offline queue), `None` when it stays
/// queued for the next pass.
pub fn settled_by_flush(outcome: Option<Option<i64>>) -> (r: LogTimeResult)
    ensures
        r == match outcome {
            Some(line) => LogTimeResult { success: line is Some, odoo_id: line, queued: line is None },
            None => LogTimeResult { success: false, odoo_id: None, queued: true },
        },
{
    match outcome {
        Some(line) => LogTimeResult { success: line.is_some(), odoo_id: line, queued: line.is_none() },
        None => LogTimeResult { success: false, odoo_id: None, queued: true },
    }
}

/// Settling a session whose line is already in Odoo: `None` when the line is
/// unknown (nothing is written, to avoid a duplicate); otherwise whether the
/// amend of that line went through.
pub fn settled_by_amend(line: Option<i64>, amended: bool) -> (r: LogTimeResult)
    ensures
        r == match line {
            None => LogTimeResult { success: true, odoo_id: None, queued: false },
            Some(l) => LogTimeResult { success: amended, odoo_id: Some(l), queued: false },
        },
{
    match line {
        None => LogTimeResult { success: true, odoo_id: None, queued: false },
        Some(l) => LogTimeResult { success: amended, odoo_id: Some(l), queued: false },
    }
}

} // verus!

verus! {

/// What the outbox does with a stopped run: a run with no elapsed time has
/// nothing to record, so its live line is dropped; any other is finalized.
pub fn finish_action(elapsed_secs: u64) -> (a: OutboxAction)
    ensures
        a == if elapsed_secs == 0 { OutboxAction::Discard } else { OutboxAction::Finalize },
{
    if elapsed_secs == 0 {
        OutboxAction::Discard
    } else {
        OutboxAction::Finalize
    }
}

/// Whether the outbox can take a finished run: only a run with a session
/// (one tracked across devices); any other run keeps the classic local path.
pub fn outbox_takes(result: &crate::timer::TimerResult) -> (b: bool)
    ensures
        b == (result.session_id@.len() > 0),
{
    result.session_id.as_str().unicode_len() > 0
}

/// The log form a stop leaves open: only for a run that was queued and had
/// elapsed time, stamped with the stop time (nanoseconds).
pub fn pending_after_stop(result: &crate::timer::TimerResult, queued: bool, now: i64) -> (p: Option<PendingLog>)
    ensures
        (queued && result.elapsed_secs != 0) <==> p is Some,
        p matches Some(l) ==> l.session_id@ == result.session_id@ && l.task_id == result.task_id
            && l.odoo_line_id == result.odoo_line_id && l.stopped_at == now,
{
    if queued && result.elapsed_secs != 0 {
        Some(PendingLog {
            session_id: result.session_id.clone(),
            task_id: result.task_id,
            odoo_line_id: result.odoo_line_id,
            stopped_at: now,
        })
    } else {
        None
    }
}


// ── Deleting a line ──────────────────────────────────────────────────

/// What a delete request reports.
#[derive(Debug, Clone, Copy, PartialEq, Eq)]
pub struct DeleteResult {
    pub deleted: bool,
}

/// Odoo refused the unlink because the line is already gone.
pub open spec fn is_already_gone(msg: Seq<char>) -> bool {
    contains_seq(lowercase_of(msg), "does not exist"@) || contains_seq(lowercase_of(msg), "record not found"@)
}

pub fn line_already_gone(msg: &str) -> (b: bool)
    ensures
        b == is_already_gone(msg@),
{
    let lower = to_lowercase(msg);
    let l = to_chars(lower.as_str());
    let gone = to_chars("does not exist");
    let missing = to_chars("record not found");
    find_chars(l.as_slice(), gone.as_slice()).is_some() || find_chars(l.as_slice(), missing.as_slice()).is_some()
}

/// The outcome of deleting a line, given Odoo's refusal of the unlink, if
/// any: a line that is already gone counts as deleted; any other refusal is
/// the error; deletes are never retried.
pub fn delete_outcome(unlink_error: Option<AppError>) -> (r: Result<DeleteResult, AppError>)
    ensures
        match unlink_error {
            None => r == Ok::<DeleteResult, AppError>(DeleteResult { deleted: true }),
            Some(e) => if is_already_gone(e.text()) {
                r == Ok::<DeleteResult, AppError>(DeleteResult { deleted: true })
            } else {
                r == Err::<DeleteResult, AppError>(e)
            },
        },
{
    match unlink_error {
        None => Ok(DeleteResult { deleted: true }),
        Some(e) => {
            let msg = e.message();
            if line_already_gone(msg.as_str()) {
                Ok(DeleteResult { deleted: true })
            } else {
                Err(e)
            }
        },
    }
}

} // verus!
