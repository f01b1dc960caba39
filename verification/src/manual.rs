//! Timesheet entries typed by hand: the checks at the boundary, the advisory
//! warnings of the composer, and the outcomes a submission reports.
use vstd::prelude::*;

use chrono::Datelike;

use crate::error::AppError;
use crate::sync::{is_permanent, is_permanent_error};
use crate::text::{from_chars, i64_text, int_text};
use vstd::string::{StrSliceExecFns, StringExecFns};

verus! {

/// The longest description accepted, in characters.
pub const MAX_DESCRIPTION_CHARS: usize = 512;

/// Entries older than this many days draw a warning.
pub const VERY_OLD_DAYS: i64 = 90;

/// The day number (days from the common era, 1 January of year 1 being
/// day 1) of a `YYYY-MM-DD` date, as `chrono` reads it; `None` when it is
/// not a date.
pub uninterp spec fn day_number_of(date: Seq<char>) -> Option<i32>;

/// `NaiveDate::parse_from_str(date, "%Y-%m-%d")` then `num_days_from_ce()`.
#[verifier::external_body]
fn parse_day(date: &str) -> (d: Option<i32>)
    ensures
        d == day_number_of(date@),
{
    chrono::NaiveDate::parse_from_str(date, "%Y-%m-%d").ok().map(|d| d.num_days_from_ce())
}

/// How a duration compares with the accepted range (measured by the caller).
#[derive(Debug, Clone, Copy, PartialEq, Eq)]
pub enum DurationCheck {
    /// Not a finite number.
    NotANumber,
    /// Under 0.01 h.
    TooShort,
    /// Over 24 h.
    TooLong,
    Accepted,
}

/// The first boundary check an entry fails, or `Ok`: the duration, the date,
/// the task, the project, the description's length (in that order).
pub open spec fn manual_entry_check(
    duration: DurationCheck,
    date: Seq<char>,
    day: Option<i32>,
    task_id: i64,
    project_id: i64,
    description: Seq<char>,
) -> Result<(), Seq<char>> {
    match duration {
        DurationCheck::NotANumber => Err("Duration is not a valid number"@),
        DurationCheck::TooShort => Err("Duration must be at least 0.01 h"@),
        DurationCheck::TooLong => Err("Duration cannot exceed 24 h"@),
        DurationCheck::Accepted => if day is None {
            Err("Invalid date: "@ + date)
        } else if task_id <= 0 {
            Err("A task must be selected"@)
        } else if project_id <= 0 {
            Err("A project must be selected"@)
        } else if description.len() > MAX_DESCRIPTION_CHARS {
            Err("Description is too long (max 512 characters)"@)
        } else {
            Ok(())
        },
    }
}

/// The boundary checks, given the date's day number (`None` when the date
/// does not parse). A failure is a `General` error with its message.
pub fn check_manual_entry(
    duration: DurationCheck,
    date: &str,
    day: Option<i32>,
    task_id: i64,
    project_id: i64,
    description: &str,
) -> (res: Result<(), AppError>)
    ensures
        match (res, manual_entry_check(duration, date@, day, task_id, project_id, description@)) {
            (Ok(_), Ok(_)) => true,
            (Err(e), Err(m)) => e is General && e.text() == m,
            _ => false,
        },
{
    match duration {
        DurationCheck::NotANumber => {
            return Err(AppError::General(String::from_str("Duration is not a valid number")));
        },
        DurationCheck::TooShort => {
            return Err(AppError::General(String::from_str("Duration must be at least 0.01 h")));
        },
        DurationCheck::TooLong => {
            return Err(AppError::General(String::from_str("Duration cannot exceed 24 h")));
        },
        DurationCheck::Accepted => {},
    }
    if day.is_none() {
        let mut m = String::from_str("Invalid date: ");
        m.append(date);
        return Err(AppError::General(m));
    }
    if task_id <= 0 {
        return Err(AppError::General(String::from_str("A task must be selected")));
    }
    if project_id <= 0 {
        return Err(AppError::General(String::from_str("A project must be selected")));
    }
    if description.unicode_len() > MAX_DESCRIPTION_CHARS {
        return Err(AppError::General(String::from_str("Description is too long (max 512 characters)")));
    }
    Ok(())
}

/// The boundary checks every manual write goes through.
pub fn validate_manual_entry(
    duration: DurationCheck,
    date: &str,
    task_id: i64,
    project_id: i64,
    description: &str,
) -> (res: Result<(), AppError>)
    ensures
        match (res, manual_entry_check(duration, date@, day_number_of(date@), task_id, project_id, description@)) {
            (Ok(_), Ok(_)) => true,
            (Err(e), Err(m)) => e is General && e.text() == m,
            _ => false,
        },
{
    let day = parse_day(date);
    check_manual_entry(duration, date, day, task_id, project_id, description)
}

// ── Composer warnings ────────────────────────────────────────────────

#[derive(Debug, Clone)]
pub struct PreflightWarning {
    pub code: String,
    pub message: String,
}

/// What the duplicate check against Odoo found.
#[derive(Debug, Clone)]
pub enum DuplicateCheck {
    /// Not run (offline, or nothing to check yet).
    NotRun,
    /// Odoo could not be asked.
    Failed,
    /// Asked: the first matching line (its id and hours as text), if any.
    Done(Option<(i64, String)>),
}

/// How full the day would be with the entry (measured by the caller, with
/// the projected total as text).
#[derive(Debug, Clone)]
pub enum DayLoad {
    Over24(String),
    Over16(String),
    Normal,
}

/// Warnings as `(code, message)`, in the order the composer shows them:
/// connectivity, a likely duplicate, the day's load, a timer on the same
/// task, and the date.
pub open spec fn preflight_list(
    online: bool,
    dup: Option<Option<(i64, Seq<char>)>>,
    load: Option<(bool, Seq<char>)>,
    timer_task_id: Option<i64>,
    task_id: i64,
    day: Option<i32>,
    today: i32,
) -> Seq<(Seq<char>, Seq<char>)> {
    let a: Seq<(Seq<char>, Seq<char>)> = if !online {
        seq![("OFFLINE_WILL_QUEUE"@, "Offline — this entry will be queued and sent on the next sync."@)]
    } else if dup is None {
        seq![("DEDUP_UNAVAILABLE"@, "Couldn't check Odoo for duplicates right now."@)]
    } else {
        Seq::empty()
    };
    let b = match dup {
        Some(Some((id, hours))) => a.push(
            (
                "DUPLICATE_LIKELY"@,
                "Odoo already has a matching line (#"@ + int_text(id as int) + ", "@ + hours
                    + " h) on this"@ + " task and day."@,
            ),
        ),
        _ => a,
    };
    let c = match load {
        Some((true, p)) => b.push(("DAY_OVER_24"@, "That would put this day at "@ + p + " h — over 24 h."@)),
        Some((false, p)) => b.push(("DAY_OVER_16"@, "That would put this day at "@ + p + " h."@)),
        None => b,
    };
    let d = if timer_task_id == Some(task_id) && task_id > 0 {
        c.push(("TIMER_RUNNING_SAME_TASK"@, "A timer is running on this"@ + " task — stopping it will log that separately."@))
    } else {
        c
    };
    match day {
        Some(x) => if x > today {
            d.push(("FUTURE_DATE"@, "This date is in the future."@))
        } else if today - x > VERY_OLD_DAYS {
            d.push(
                (
                    "VERY_OLD_DATE"@,
                    "This date is "@ + int_text(today - x) + " days old — timesheets may already be locked."@,
                ),
            )
        } else {
            d
        },
        None => d,
    }
}

pub open spec fn warning_views(ws: Seq<PreflightWarning>) -> Seq<(Seq<char>, Seq<char>)> {
    ws.map_values(|w: PreflightWarning| (w.code@, w.message@))
}

fn push_warning(ws: &mut Vec<PreflightWarning>, code: &str, message: String)
    ensures
        warning_views(final(ws)@) == warning_views(old(ws)@).push((code@, message@)),
{
    let ghost before = ws@;
    ws.push(PreflightWarning { code: String::from_str(code), message });
    assert(warning_views(ws@) =~= warning_views(before).push((code@, message@)));
}

/// The composer's warnings. `dup` is `None` when the duplicate check
/// failed; `load` is the day's projected load (over 24 h or not, and its
/// text) when it exceeds 16 h; `day` is the entry date's day number and
/// `today` today's.
pub fn preflight_warnings(
    online: bool,
    dup: &DuplicateCheck,
    load: &DayLoad,
    timer_task_id: Option<i64>,
    task_id: i64,
    day: Option<i32>,
    today: i32,
) -> (ws: Vec<PreflightWarning>)
    ensures
        warning_views(ws@) == preflight_list(
            online,
            match dup {
                DuplicateCheck::Failed => None,
                DuplicateCheck::NotRun => Some(None),
                DuplicateCheck::Done(Some((id, h))) => Some(Some((*id, h@))),
                DuplicateCheck::Done(None) => Some(None),
            },
            match load {
                DayLoad::Over24(p) => Some((true, p@)),
                DayLoad::Over16(p) => Some((false, p@)),
                DayLoad::Normal => None,
            },
            timer_task_id,
            task_id,
            day,
            today,
        ),
{
    let mut ws: Vec<PreflightWarning> = Vec::new();
    if !online {
        push_warning(&mut ws, "OFFLINE_WILL_QUEUE", String::from_str("Offline — this entry will be queued and sent on the next sync."));
    } else {
        match dup {
            DuplicateCheck::Failed => {
                push_warning(&mut ws, "DEDUP_UNAVAILABLE", String::from_str("Couldn't check Odoo for duplicates right now."));
            },
            _ => {},
        }
    }
    match dup {
        DuplicateCheck::Done(Some((id, hours))) => {
            let mut m = String::from_str("Odoo already has a matching line (#");
            m.append(from_chars(i64_text(*id).as_slice()).as_str());
            m.append(", ");
            m.append(hours.as_str());
            m.append(" h) on this");
            m.append(" task and day.");
            push_warning(&mut ws, "DUPLICATE_LIKELY", m);
        },
        _ => {},
    }
    match load {
        DayLoad::Over24(p) => {
            let mut m = String::from_str("That would put this day at ");
            m.append(p.as_str());
            m.append(" h — over 24 h.");
            push_warning(&mut ws, "DAY_OVER_24", m);
        },
        DayLoad::Over16(p) => {
            let mut m = String::from_str("That would put this day at ");
            m.append(p.as_str());
            m.append(" h.");
            push_warning(&mut ws, "DAY_OVER_16", m);
        },
        DayLoad::Normal => {},
    }
    if timer_task_id == Some(task_id) && task_id > 0 {
        let mut m = String::from_str("A timer is running on this");
        m.append(" task — stopping it will log that separately.");
        push_warning(&mut ws, "TIMER_RUNNING_SAME_TASK", m);
    }
    match day {
        Some(x) => {
            if x > today {
                push_warning(&mut ws, "FUTURE_DATE", String::from_str("This date is in the future."));
            } else if (today as i64) - (x as i64) > VERY_OLD_DAYS {
                let mut m = String::from_str("This date is ");
                m.append(from_chars(i64_text((today as i64) - (x as i64)).as_slice()).as_str());
                m.append(" days old — timesheets may already be locked.");
                push_warning(&mut ws, "VERY_OLD_DATE", m);
            }
        },
        None => {},
    }
    ws
}

/// The day number of a date, for the composer's date warnings.
pub fn entry_day(date: &str) -> (d: Option<i32>)
    ensures
        d == day_number_of(date@),
{
    parse_day(date)
}

// ── Outcomes ─────────────────────────────────────────────────────────

/// Why Odoo refused a manual entry, verbatim, and whether retrying cannot help.
pub fn rejection(err: &AppError) -> (r: (String, bool))
    ensures
        r.0@ == err.text(),
        r.1 == is_permanent(err.text()),
{
    let msg = err.message();
    let perm = is_permanent_error(msg.as_str());
    (msg, perm)
}

} // verus!
