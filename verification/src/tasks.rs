//! Tasks and projects as the interface lists them: users and stages, the
//! reason shown next to a suggested task, and the project list.
use vstd::prelude::*;

use crate::models::{OdooProject, opt_pair_view, opt_text_view};
use crate::text::{from_chars, i64_text, int_text};
use vstd::string::StringExecFns;

verus! {

#[derive(Debug, Clone)]
pub struct UserInfo {
    pub id: i64,
    pub name: String,
}

#[derive(Debug, Clone)]
pub struct StageInfo {
    pub id: i64,
    pub name: String,
}

#[derive(Debug, Clone)]
pub struct TaskStageInfo {
    pub stage_id: Option<i64>,
    pub stage_name: Option<String>,
    pub state: Option<String>,
    pub kanban_state: Option<String>,
    pub available_stages: Vec<StageInfo>,
}

/// Users as the interface lists them, in the given order.
pub fn user_infos(pairs: Vec<(i64, String)>) -> (res: Vec<UserInfo>)
    ensures
        res@.map_values(|u: UserInfo| (u.id, u.name@)) == pairs@.map_values(|p: (i64, String)| (p.0, p.1@)),
{
    let mut res: Vec<UserInfo> = Vec::new();
    let mut i: usize = 0;
    while i < pairs.len()
        invariant
            i <= pairs@.len(),
            res@.map_values(|u: UserInfo| (u.id, u.name@)) == pairs@.take(i as int).map_values(
                |p: (i64, String)| (p.0, p.1@),
            ),
        decreases pairs@.len() - i,
    {
        let ghost before = res@;
        res.push(UserInfo { id: pairs[i].0, name: pairs[i].1.clone() });
        assert(res@.map_values(|u: UserInfo| (u.id, u.name@)) =~= before.map_values(|u: UserInfo| (u.id, u.name@)).push(
            (pairs@[i as int].0, pairs@[i as int].1@),
        ));
        assert(pairs@.take(i + 1).map_values(|p: (i64, String)| (p.0, p.1@)) =~= pairs@.take(i as int).map_values(
            |p: (i64, String)| (p.0, p.1@),
        ).push((pairs@[i as int].0, pairs@[i as int].1@)));
        i += 1;
    }
    assert(pairs@.take(pairs@.len() as int) == pairs@);
    res
}

/// A task's stage information: its current stage (id and name), state and
/// kanban state, and the stages it can move to.
pub fn task_stage_info(
    current: (Option<(i64, String)>, Option<String>, Option<String>),
    stages: Vec<(i64, String)>,
) -> (res: TaskStageInfo)
    ensures
        res.stage_id == match current.0 {
            Some((id, _)) => Some(id),
            None => None,
        },
        opt_text_view(res.stage_name) == match opt_pair_view(current.0) {
            Some((_, n)) => Some(n),
            None => None,
        },
        opt_text_view(res.state) == opt_text_view(current.1),
        opt_text_view(res.kanban_state) == opt_text_view(current.2),
        res.available_stages@.map_values(|s: StageInfo| (s.id, s.name@)) == stages@.map_values(
            |p: (i64, String)| (p.0, p.1@),
        ),
{
    let (stage, state, kanban) = current;
    let (stage_id, stage_name) = match stage {
        Some((id, name)) => (Some(id), Some(name)),
        None => (None, None),
    };
    let mut available: Vec<StageInfo> = Vec::new();
    let mut i: usize = 0;
    while i < stages.len()
        invariant
            i <= stages@.len(),
            available@.map_values(|s: StageInfo| (s.id, s.name@)) == stages@.take(i as int).map_values(
                |p: (i64, String)| (p.0, p.1@),
            ),
        decreases stages@.len() - i,
    {
        let ghost before = available@;
        available.push(StageInfo { id: stages[i].0, name: stages[i].1.clone() });
        assert(available@.map_values(|s: StageInfo| (s.id, s.name@)) =~= before.map_values(
            |s: StageInfo| (s.id, s.name@),
        ).push((stages@[i as int].0, stages@[i as int].1@)));
        assert(stages@.take(i + 1).map_values(|p: (i64, String)| (p.0, p.1@)) =~= stages@.take(i as int).map_values(
            |p: (i64, String)| (p.0, p.1@),
        ).push((stages@[i as int].0, stages@[i as int].1@)));
        i += 1;
    }
    assert(stages@.take(stages@.len() as int) == stages@);
    TaskStageInfo { stage_id, stage_name, state, kanban_state: kanban, available_stages: available }
}

// ── Suggested tasks ──────────────────────────────────────────────────

/// The plural weekday name for `%w` (0 = Sunday).
pub open spec fn weekday_text(w: u32) -> Seq<char> {
    if w == 0 {
        "Sundays"@
    } else if w == 1 {
        "Mondays"@
    } else if w == 2 {
        "Tuesdays"@
    } else if w == 3 {
        "Wednesdays"@
    } else if w == 4 {
        "Thursdays"@
    } else if w == 5 {
        "Fridays"@
    } else if w == 6 {
        "Saturdays"@
    } else {
        "this day"@
    }
}

pub fn weekday_name(w: u32) -> (res: &'static str)
    ensures
        res@ == weekday_text(w),
{
    if w == 0 {
        "Sundays"
    } else if w == 1 {
        "Mondays"
    } else if w == 2 {
        "Tuesdays"
    } else if w == 3 {
        "Wednesdays"
    } else if w == 4 {
        "Thursdays"
    } else if w == 5 {
        "Fridays"
    } else if w == 6 {
        "Saturdays"
    } else {
        "this day"
    }
}

/// The largest 30-day frequency, and never less than 1.
pub open spec fn max_frequency_of(freqs: Seq<i64>) -> i64
    decreases freqs.len(),
{
    if freqs.len() == 0 {
        1
    } else {
        let m = max_frequency_of(freqs.drop_last());
        if freqs.last() > m {
            freqs.last()
        } else {
            m
        }
    }
}

pub fn max_frequency(freqs: &[i64]) -> (m: i64)
    ensures
        m == max_frequency_of(freqs@),
        m >= 1,
        forall|i: int| 0 <= i < freqs@.len() ==> freqs@[i] <= m,
{
    let mut m: i64 = 1;
    let mut i: usize = 0;
    while i < freqs.len()
        invariant
            i <= freqs@.len(),
            m == max_frequency_of(freqs@.take(i as int)),
            m >= 1,
            forall|j: int| 0 <= j < i ==> freqs@[j] <= m,
        decreases freqs@.len() - i,
    {
        assert(freqs@.take(i + 1).drop_last() == freqs@.take(i as int));
        if freqs[i] > m {
            m = freqs[i];
        }
        i += 1;
    }
    assert(freqs@.take(freqs@.len() as int) == freqs@);
    m
}

/// Why a task is suggested, from its history: worked on today; worked on
/// yesterday (a streak); common on this weekday (three or more of the last
/// weeks); or frequent (more than half as often as the most frequent task).
/// Empty when none applies.
pub open spec fn reason_text(
    days_since_last: i64,
    total_days: i64,
    weekday_frequency: i64,
    frequency_30d: i64,
    max_freq: i64,
    weekday: u32,
) -> Seq<char> {
    if days_since_last == 0 {
        "Active today"@
    } else if days_since_last <= 1 {
        "Worked on "@ + int_text(total_days as int) + " days recently"@
    } else if weekday_frequency >= 3 {
        "Common on "@ + weekday_text(weekday)
    } else if 2 * frequency_30d > max_freq {
        "Frequent ("@ + int_text(frequency_30d as int) + " days/month)"@
    } else {
        Seq::empty()
    }
}

pub fn suggestion_reason(
    days_since_last: i64,
    total_days: i64,
    weekday_frequency: i64,
    frequency_30d: i64,
    max_freq: i64,
    weekday: u32,
) -> (res: String)
    ensures
        res@ == reason_text(days_since_last, total_days, weekday_frequency, frequency_30d, max_freq, weekday),
{
    if days_since_last == 0 {
        String::from_str("Active today")
    } else if days_since_last <= 1 {
        let mut m = String::from_str("Worked on ");
        m.append(from_chars(i64_text(total_days).as_slice()).as_str());
        m.append(" days recently");
        m
    } else if weekday_frequency >= 3 {
        let mut m = String::from_str("Common on ");
        m.append(weekday_name(weekday));
        m
    } else if 2 * (frequency_30d as i128) > max_freq as i128 {
        let mut m = String::from_str("Frequent (");
        m.append(from_chars(i64_text(frequency_30d).as_slice()).as_str());
        m.append(" days/month)");
        m
    } else {
        String::new()
    }
}

// ── Projects ─────────────────────────────────────────────────────────

#[derive(Debug, Clone)]
pub struct ProjectInfo {
    pub id: i64,
    pub name: String,
}

#[derive(Debug, Clone)]
pub struct CachedProject {
    pub id: i64,
    pub name: String,
}

/// Anything the project cache can store: an id and a name.
pub trait ProjectLike {
    fn project_id(&self) -> i64;

    fn project_name_ref(&self) -> &str;
}

impl ProjectLike for ProjectInfo {
    fn project_id(&self) -> (res: i64)
        ensures
            res == self.id,
    {
        self.id
    }

    fn project_name_ref(&self) -> (res: &str)
        ensures
            res@ == self.name@,
    {
        self.name.as_str()
    }
}

impl ProjectLike for CachedProject {
    fn project_id(&self) -> (res: i64)
        ensures
            res == self.id,
    {
        self.id
    }

    fn project_name_ref(&self) -> (res: &str)
        ensures
            res@ == self.name@,
    {
        self.name.as_str()
    }
}

/// Projects from Odoo as the interface lists them, in order.
pub fn project_infos(projects: Vec<OdooProject>) -> (res: Vec<ProjectInfo>)
    ensures
        res@.map_values(|p: ProjectInfo| (p.id, p.name@)) == projects@.map_values(|p: OdooProject| (p.id, p.name@)),
{
    let mut res: Vec<ProjectInfo> = Vec::new();
    let mut i: usize = 0;
    while i < projects.len()
        invariant
            i <= projects@.len(),
            res@.map_values(|p: ProjectInfo| (p.id, p.name@)) == projects@.take(i as int).map_values(
                |p: OdooProject| (p.id, p.name@),
            ),
        decreases projects@.len() - i,
    {
        let ghost before = res@;
        res.push(ProjectInfo { id: projects[i].id, name: projects[i].name.clone() });
        assert(res@.map_values(|p: ProjectInfo| (p.id, p.name@)) =~= before.map_values(|p: ProjectInfo| (p.id, p.name@)).push(
            (projects@[i as int].id, projects@[i as int].name@),
        ));
        assert(projects@.take(i + 1).map_values(|p: OdooProject| (p.id, p.name@)) =~= projects@.take(i as int).map_values(
            |p: OdooProject| (p.id, p.name@),
        ).push((projects@[i as int].id, projects@[i as int].name@)));
        i += 1;
    }
    assert(projects@.take(projects@.len() as int) == projects@);
    res
}

// ── Assignee lists as JSON ───────────────────────────────────────────

/// What `serde_json` reads as a list of integers from `text`, or `None` when
/// the text is not a JSON array of 64-bit integers.
pub uninterp spec fn json_int_list(text: Seq<char>) -> Option<Seq<i64>>;

/// `serde_json::from_str::<Vec<i64>>(text).ok()`. The result is a function of
/// the text alone.
#[verifier::external_body]
fn parse_int_list(text: &str) -> (r: Option<Vec<i64>>)
    ensures
        match (r, json_int_list(text@)) {
            (Some(v), Some(s)) => v@ == s,
            (None, None) => true,
            _ => false,
        },
{
    serde_json::from_str::<Vec<i64>>(text).ok()
}

/// The user ids a cached task stores as JSON text; `None` when the text does
/// not hold a list of integers.
pub fn user_ids_from_json(text: &str) -> (r: Option<Vec<i64>>)
    ensures
        match (r, json_int_list(text@)) {
            (Some(v), Some(s)) => v@ == s,
            (None, None) => true,
            _ => false,
        },
{
    parse_int_list(text)
}

/// The integers written one after another, separated by commas.
pub open spec fn ints_joined(s: Seq<i64>) -> Seq<char>
    decreases s.len(),
{
    if s.len() == 0 {
        Seq::empty()
    } else if s.len() == 1 {
        int_text(s[0] as int)
    } else {
        ints_joined(s.drop_last()) + seq![','] + int_text(s.last() as int)
    }
}

/// The compact JSON array of the integers: `[1,-2,3]`.
pub open spec fn json_int_list_text(s: Seq<i64>) -> Seq<char> {
    seq!['['] + ints_joined(s) + seq![']']
}

/// `serde_json::to_string(ids)`: the compact formatter writes `[`, the
/// integers in decimal separated by `,`, and `]`; serializing integers into a
/// vector does not fail.
#[verifier::external_body]
fn write_int_list(ids: &[i64]) -> (r: Result<String, String>)
    ensures
        r is Ok,
        r->Ok_0@ == json_int_list_text(ids@),
{
    serde_json::to_string(ids).map_err(|e| e.to_string())
}

/// The JSON text a cached task stores for its user ids.
pub fn user_ids_to_json(ids: &[i64]) -> (r: String)
    ensures
        r@ == json_int_list_text(ids@),
{
    match write_int_list(ids) {
        Ok(s) => s,
        Err(_) => String::new(),
    }
}

} // verus!
