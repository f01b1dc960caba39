//! Texts the shell shows outside the main window: the tray menu's
//! attendance labels and the timer and reminder notifications.
use vstd::prelude::*;

use crate::attendance::AttendanceStatus;
use crate::calendar::padded;
use crate::text::{from_chars, lemma_split_on_len, nat_text, split_chars, split_on, to_chars, u64_text};
use vstd::string::{StrSliceExecFns, StringExecFns};

verus! {

/// `HH:MM` of a `YYYY-MM-DD HH:MM:SS` time: the part after the first space,
/// up to its second colon; empty when there is no space.
pub open spec fn clock_of(t: Seq<char>) -> Seq<char> {
    let parts = split_on(t, ' ');
    if parts.len() >= 2 {
        let q = split_on(parts[1], ':');
        if q.len() >= 2 {
            q[0] + seq![':'] + q[1]
        } else {
            q[0]
        }
    } else {
        Seq::empty()
    }
}

pub fn check_in_clock(t: &str) -> (res: String)
    ensures
        res@ == clock_of(t@),
{
    let cs = to_chars(t);
    let parts = split_chars(cs.as_slice(), ' ');
    if parts.len() < 2 {
        return String::new();
    }
    let q = split_chars(parts[1].as_slice(), ':');
    proof {
        lemma_split_on_len(parts@[1]@, ':');
    }
    let mut out: Vec<char> = Vec::new();
    let mut i: usize = 0;
    while i < q[0].len()
        invariant
            q@.len() >= 1,
            i <= q@[0]@.len(),
            out@ == q@[0]@.take(i as int),
        decreases q@[0]@.len() - i,
    {
        out.push(q[0][i]);
        assert(q@[0]@.take(i + 1) == q@[0]@.take(i as int).push(q@[0]@[i as int]));
        i += 1;
    }
    assert(q@[0]@.take(q@[0]@.len() as int) == q@[0]@);
    if q.len() >= 2 {
        out.push(':');
        let mut j: usize = 0;
        let ghost base = out@;
        while j < q[1].len()
            invariant
                q@.len() >= 2,
                j <= q@[1]@.len(),
                out@ == base + q@[1]@.take(j as int),
            decreases q@[1]@.len() - j,
        {
            out.push(q[1][j]);
            assert(q@[1]@.take(j + 1) == q@[1]@.take(j as int).push(q@[1]@[j as int]));
            j += 1;
        }
        assert(q@[1]@.take(q@[1]@.len() as int) == q@[1]@);
    }
    from_chars(out.as_slice())
}

/// What the tray shows for an attendance status.
#[derive(Debug, Clone)]
pub struct TrayLabels {
    pub status: String,
    pub toggle: String,
    pub tooltip: String,
}

/// The tray labels: checked in since a time, or not checked in.
pub open spec fn tray_texts(checked_in: bool, check_in_time: Option<Seq<char>>) -> (Seq<char>, Seq<char>, Seq<char>) {
    if checked_in {
        let at = match check_in_time {
            Some(t) => clock_of(t),
            None => Seq::empty(),
        };
        ("● Checked in (since "@ + at + ")"@, "Check Out"@, "Time Tracker - Checked in since "@ + at)
    } else {
        ("○ Not checked in"@, "Check In"@, "Time Tracker"@)
    }
}

pub fn tray_labels(status: &AttendanceStatus) -> (l: TrayLabels)
    ensures
        (l.status@, l.toggle@, l.tooltip@) == tray_texts(status.is_checked_in, crate::models::opt_text_view(status.check_in_time)),
{
    if status.is_checked_in {
        let at = match &status.check_in_time {
            Some(t) => check_in_clock(t.as_str()),
            None => String::new(),
        };
        let mut label = String::from_str("● Checked in (since ");
        label.append(at.as_str());
        label.append(")");
        let mut tip = String::from_str("Time Tracker - Checked in since ");
        tip.append(at.as_str());
        TrayLabels { status: label, toggle: String::from_str("Check Out"), tooltip: tip }
    } else {
        TrayLabels {
            status: String::from_str("○ Not checked in"),
            toggle: String::from_str("Check In"),
            tooltip: String::from_str("Time Tracker"),
        }
    }
}

/// `HH:MM:SS` of a duration in seconds (hours may run past two digits).
pub open spec fn clock_text(secs: u64) -> Seq<char> {
    padded((secs / 3600) as nat, 2) + seq![':'] + padded(((secs % 3600) / 60) as nat, 2) + seq![':'] + padded(
        (secs % 60) as nat,
        2,
    )
}

fn padded_u64(n: u64, w: usize) -> (res: String)
    ensures
        res@ == padded(n as nat, w as nat),
    decreases w,
{
    let digits = u64_text(n);
    if digits.len() >= w || w == 0 {
        from_chars(digits.as_slice())
    } else {
        let mut s = String::from_str("0");
        s.append(padded_u64(n, w - 1).as_str());
        proof {
            reveal_strlit("0");
        }
        s
    }
}

pub fn clock(secs: u64) -> (res: String)
    ensures
        res@ == clock_text(secs),
{
    let mut s = padded_u64(secs / 3600, 2);
    s.append(":");
    s.append(padded_u64((secs % 3600) / 60, 2).as_str());
    s.append(":");
    s.append(padded_u64(secs % 60, 2).as_str());
    proof {
        reveal_strlit(":");
    }
    s
}

/// The title of the ongoing-timer notification.
pub open spec fn ongoing_title_text(task_name: Seq<char>, elapsed: u64) -> Seq<char> {
    "⏱ "@ + clock_text(elapsed) + " — "@ + task_name
}

pub fn ongoing_title(task_name: &str, elapsed: u64) -> (res: String)
    ensures
        res@ == ongoing_title_text(task_name@, elapsed),
{
    let mut s = String::from_str("⏱ ");
    s.append(clock(elapsed).as_str());
    s.append(" — ");
    s.append(task_name);
    s
}

/// The title of the reminder notification: hours and minutes, or minutes alone.
pub open spec fn reminder_title_text(elapsed: u64) -> Seq<char> {
    let h = elapsed / 3600;
    let m = (elapsed % 3600) / 60;
    "Still working? — "@ + if h > 0 {
        nat_text(h as nat) + "h "@ + padded(m as nat, 2) + "m"@
    } else {
        nat_text(m as nat) + "m"@
    }
}

pub fn reminder_title(elapsed: u64) -> (res: String)
    ensures
        res@ == reminder_title_text(elapsed),
{
    let h = elapsed / 3600;
    let m = (elapsed % 3600) / 60;
    let mut s = String::from_str("Still working? — ");
    if h > 0 {
        s.append(from_chars(u64_text(h).as_slice()).as_str());
        s.append("h ");
        s.append(padded_u64(m, 2).as_str());
        s.append("m");
    } else {
        s.append(from_chars(u64_text(m).as_slice()).as_str());
        s.append("m");
    }
    s
}

/// The body of the reminder notification: the task, and its project when known.
pub fn reminder_body(task_name: &str, project_name: &str) -> (res: String)
    ensures
        res@ == if project_name@.len() == 0 { task_name@ } else { task_name@ + " · "@ + project_name@ },
{
    let mut s = String::from_str(task_name);
    if project_name.unicode_len() > 0 {
        s.append(" · ");
        s.append(project_name);
    }
    s
}

} // verus!

verus! {

/// Text placed inside a single-quoted script string: quotes escaped,
/// line breaks turned into spaces.
pub open spec fn script_char(c: char) -> Seq<char> {
    if c == '\'' {
        seq!['\\', '\'']
    } else if c == '\n' {
        seq![' ']
    } else {
        seq![c]
    }
}

pub open spec fn script_text(s: Seq<char>) -> Seq<char>
    decreases s.len(),
{
    if s.len() == 0 {
        Seq::empty()
    } else {
        script_text(s.drop_last()) + script_char(s.last())
    }
}

pub fn script_escape(s: &str) -> (res: String)
    ensures
        res@ == script_text(s@),
{
    let cs = to_chars(s);
    let mut out: Vec<char> = Vec::new();
    let mut i: usize = 0;
    while i < cs.len()
        invariant
            i <= cs@.len(),
            out@ == script_text(cs@.take(i as int)),
        decreases cs@.len() - i,
    {
        let c = cs[i];
        let ghost before = out@;
        if c == '\'' {
            out.push('\\');
            out.push('\'');
        } else if c == '\n' {
            out.push(' ');
        } else {
            out.push(c);
        }
        assert(cs@.take(i + 1).drop_last() == cs@.take(i as int));
        assert(out@ =~= before + script_char(c));
        i += 1;
    }
    assert(cs@.take(cs@.len() as int) == cs@);
    from_chars(out.as_slice())
}

/// The popup's quick-switch rows and pills: every entry but the running task,
/// `main` entries as rows and the others as pills, in order.
pub fn popup_entries(
    entries: &[crate::reminder::QuickSwitchEntry],
    running_task: i64,
) -> (res: (Vec<usize>, Vec<usize>))
    ensures
        res.0@ == popup_indices(entries@, running_task, true),
        res.1@ == popup_indices(entries@, running_task, false),
{
    let mut rows: Vec<usize> = Vec::new();
    let mut pills: Vec<usize> = Vec::new();
    let mut i: usize = 0;
    while i < entries.len()
        invariant
            i <= entries@.len(),
            rows@ == popup_indices(entries@.take(i as int), running_task, true),
            pills@ == popup_indices(entries@.take(i as int), running_task, false),
        decreases entries@.len() - i,
    {
        assert(entries@.take(i + 1).drop_last() == entries@.take(i as int));
        if entries[i].task_id != running_task {
            if crate::timer::str_eq(entries[i].slot.as_str(), "main") {
                rows.push(i);
            } else {
                pills.push(i);
            }
        }
        i += 1;
    }
    assert(entries@.take(entries@.len() as int) == entries@);
    (rows, pills)
}

/// Indices of the entries other than the running task whose slot is `main`
/// (or, with `main` false, whose slot is anything else).
pub open spec fn popup_indices(entries: Seq<crate::reminder::QuickSwitchEntry>, running_task: i64, main: bool) -> Seq<usize>
    decreases entries.len(),
{
    if entries.len() == 0 {
        Seq::empty()
    } else {
        let before = popup_indices(entries.drop_last(), running_task, main);
        let e = entries.last();
        if e.task_id != running_task && ((e.slot@ == "main"@) == main) {
            before.push((entries.len() - 1) as usize)
        } else {
            before
        }
    }
}

} // verus!
