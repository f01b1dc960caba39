//! The idle reminder: how often it fires while a timer runs, what the popup
//! offers to switch to, and the backoff of the background attendance check.
use vstd::prelude::*;

use crate::settings::{DefaultTaskConfig, QuickSwitchItem};
use crate::text::{from_chars, i64_text, int_text, nat_text, to_chars, u64_text};
use vstd::string::StringExecFns;

verus! {

/// Shared reminder state.
#[derive(Debug)]
pub struct ReminderState {
    pub interval_minutes: u64,
    pub popup_showing: bool,
    /// ID of the currently scheduled reminder task (mobile only)
    pub scheduled_task_id: Option<String>,
    /// Set when a task switch occurs; the reminder loop resets its counter
    pub reset_elapsed: bool,
}

impl Default for ReminderState {
    fn default() -> (s: ReminderState)
        ensures
            s.interval_minutes == 0 && !s.popup_showing && s.scheduled_task_id is None && !s.reset_elapsed,
    {
        ReminderState { interval_minutes: 0, popup_showing: false, scheduled_task_id: None, reset_elapsed: false }
    }
}

impl ReminderState {
    /// The user answered the popup: hide it and restart the full interval.
    pub fn dismiss(&mut self)
        ensures
            !final(self).popup_showing,
            final(self).reset_elapsed,
            final(self).interval_minutes == old(self).interval_minutes,
            final(self).scheduled_task_id == old(self).scheduled_task_id,
    {
        self.popup_showing = false;
        self.reset_elapsed = true;
    }
}

/// One entry of the popup's quick-switch list.
#[derive(Debug, Clone)]
pub struct QuickSwitchEntry {
    pub task_id: i64,
    pub task_name: String,
    pub project_id: i64,
    pub project_name: String,
    pub slot: String,
}

/// What the reminder popup shows.
#[derive(Debug, Clone)]
pub struct ReminderPayload {
    pub task_id: i64,
    pub task_name: String,
    pub project_name: String,
    pub elapsed_secs: u64,
    pub quick_switch: Vec<QuickSwitchEntry>,
}

// ── Interval validation ──────────────────────────────────────────────

/// The intervals (minutes) a user may pick; 0 switches reminders off.
pub open spec fn valid_interval(m: u64) -> bool {
    m == 0 || m == 5 || m == 10 || m == 15 || m == 30 || m == 60
}

pub fn is_valid_interval(minutes: u64) -> (b: bool)
    ensures
        b == valid_interval(minutes),
{
    minutes == 0 || minutes == 5 || minutes == 10 || minutes == 15 || minutes == 30 || minutes == 60
}

/// The refusal of an interval that is not on the list.
pub open spec fn bad_interval_text(minutes: u64) -> Seq<char> {
    "Invalid reminder interval: "@ + nat_text(minutes as nat) + ". Must be one of [0, 5, 10, 15, 30, 60]"@
}

/// Set the interval, refusing any value not on the list.
pub fn set_interval(state: &mut ReminderState, minutes: u64) -> (res: Result<(), crate::error::AppError>)
    ensures
        valid_interval(minutes) ==> res is Ok && final(state).interval_minutes == minutes,
        !valid_interval(minutes) ==> (res matches Err(e) && e is General && e.text() == bad_interval_text(minutes))
            && final(state).interval_minutes == old(state).interval_minutes,
        final(state).popup_showing == old(state).popup_showing,
        final(state).reset_elapsed == old(state).reset_elapsed,
        final(state).scheduled_task_id == old(state).scheduled_task_id,
{
    if !is_valid_interval(minutes) {
        let mut msg = String::from_str("Invalid reminder interval: ");
        let digits = from_chars(u64_text(minutes).as_slice());
        msg.append(digits.as_str());
        msg.append(". Must be one of [0, 5, 10, 15, 30, 60]");
        return Err(crate::error::AppError::General(msg));
    }
    state.interval_minutes = minutes;
    Ok(())
}

/// The notification channels a reminder may use.
pub open spec fn valid_channel(c: Seq<char>) -> bool {
    c == "reminder_silent_v2"@ || c == "reminder_normal_v2"@ || c == "reminder_urgent_v2"@
}

/// Accept a reminder channel, refusing any other name.
pub fn check_channel(channel: &str) -> (res: Result<(), crate::error::AppError>)
    ensures
        valid_channel(channel@) ==> res is Ok,
        !valid_channel(channel@) ==> (res matches Err(e) && e is General && e.text() == "Invalid channel: "@ + channel@),
{
    if crate::timer::str_eq(channel, "reminder_silent_v2") || crate::timer::str_eq(channel, "reminder_normal_v2")
        || crate::timer::str_eq(channel, "reminder_urgent_v2") {
        Ok(())
    } else {
        let mut m = String::from_str("Invalid channel: ");
        m.append(channel);
        Err(crate::error::AppError::General(m))
    }
}

// ── The reminder loop ────────────────────────────────────────────────

/// How often the reminder loop wakes.
pub const TICK_SECS: u64 = 30;

/// What one wake-up makes of the count, as the triple (new count, show the
/// popup now, popup showing afterwards), from the interval, whether the popup
/// shows, whether a reset is pending, the count and whether a timer runs.
pub open spec fn tick_outcome(
    interval_minutes: u64,
    popup_showing: bool,
    reset_pending: bool,
    elapsed: u64,
    timer_running: bool,
) -> (int, bool, bool) {
    let e0 = if reset_pending { 0 } else { elapsed as int };
    if interval_minutes == 0 || !timer_running {
        (0, false, popup_showing)
    } else if e0 + TICK_SECS < interval_minutes * 60 || popup_showing {
        (e0 + TICK_SECS, false, popup_showing)
    } else {
        (0, true, true)
    }
}

/// One wake-up of the reminder loop. `elapsed` counts seconds since the last
/// reminder (or the start of the run); the returned pair is its new value and
/// whether to show the popup now.
///
/// A pending reset (task switch, dismissal) is consumed and zeroes the count.
/// With reminders off or no timer running the count stays at zero. Otherwise
/// it grows by a tick, and once it reaches the interval the popup is shown —
/// unless it already is — and the count starts over.
pub fn reminder_tick(state: &mut ReminderState, elapsed: u64, timer_running: bool) -> (res: (u64, bool))
    requires
        elapsed <= u64::MAX - TICK_SECS,
        old(state).interval_minutes <= u64::MAX / 60,
    ensures
        !final(state).reset_elapsed,
        final(state).interval_minutes == old(state).interval_minutes,
        final(state).scheduled_task_id == old(state).scheduled_task_id,
        (res.0 as int, res.1, final(state).popup_showing) == tick_outcome(
            old(state).interval_minutes,
            old(state).popup_showing,
            old(state).reset_elapsed,
            elapsed,
            timer_running,
        ),
{
    let mut elapsed = elapsed;
    if state.reset_elapsed {
        state.reset_elapsed = false;
        elapsed = 0;
    }
    if state.interval_minutes == 0 {
        return (0, false);
    }
    if !timer_running {
        return (0, false);
    }
    elapsed = elapsed + TICK_SECS;
    let interval_secs = state.interval_minutes * 60;
    if elapsed < interval_secs {
        return (elapsed, false);
    }
    if state.popup_showing {
        return (elapsed, false);
    }
    state.popup_showing = true;
    (0, true)
}

/// What the scheduled (mobile) idle-reminder handler does.
#[derive(Debug, Clone, Copy, PartialEq, Eq)]
pub enum IdleReminderStep {
    /// No timer: forget the scheduled task and do nothing.
    NotRunning,
    /// Reminders are off.
    Disabled,
    /// The in-app loop already showed the popup: only schedule the next one.
    RescheduleOnly,
    /// Show the reminder (the popup is now marked as showing) and schedule the next one.
    Show,
}

pub fn idle_reminder_step(state: &mut ReminderState, timer_running: bool) -> (step: IdleReminderStep)
    ensures
        !timer_running ==> step == IdleReminderStep::NotRunning && final(state).scheduled_task_id is None
            && final(state).popup_showing == old(state).popup_showing,
        timer_running && old(state).interval_minutes == 0 ==> step == IdleReminderStep::Disabled
            && final(state).scheduled_task_id == old(state).scheduled_task_id
            && final(state).popup_showing == old(state).popup_showing,
        timer_running && old(state).interval_minutes != 0 && old(state).popup_showing ==> step
            == IdleReminderStep::RescheduleOnly && final(state).scheduled_task_id == old(state).scheduled_task_id
            && final(state).popup_showing,
        timer_running && old(state).interval_minutes != 0 && !old(state).popup_showing ==> step
            == IdleReminderStep::Show && final(state).scheduled_task_id == old(state).scheduled_task_id
            && final(state).popup_showing,
        final(state).interval_minutes == old(state).interval_minutes,
        final(state).reset_elapsed == old(state).reset_elapsed,
{
    if !timer_running {
        state.scheduled_task_id = None;
        return IdleReminderStep::NotRunning;
    }
    if state.interval_minutes == 0 {
        return IdleReminderStep::Disabled;
    }
    if state.popup_showing {
        return IdleReminderStep::RescheduleOnly;
    }
    state.popup_showing = true;
    IdleReminderStep::Show
}

/// Delay (seconds) of the next scheduled reminder, or `None` (and the
/// scheduled task forgotten) when reminders are off or no timer runs.
pub fn next_reminder_delay(state: &mut ReminderState, timer_running: bool) -> (res: Option<u64>)
    requires
        old(state).interval_minutes <= u64::MAX / 60,
    ensures
        old(state).interval_minutes == 0 || !timer_running ==> res is None && final(state).scheduled_task_id is None,
        old(state).interval_minutes != 0 && timer_running ==> res == Some((old(state).interval_minutes * 60) as u64)
            && final(state).scheduled_task_id == old(state).scheduled_task_id,
        final(state).interval_minutes == old(state).interval_minutes,
        final(state).popup_showing == old(state).popup_showing,
        final(state).reset_elapsed == old(state).reset_elapsed,
{
    if state.interval_minutes == 0 || !timer_running {
        state.scheduled_task_id = None;
        return None;
    }
    Some(state.interval_minutes * 60)
}

// ── Scheduled-task routing ───────────────────────────────────────────

/// Routes scheduled-task firings to their handlers.
pub struct ScheduledTaskRouter;

/// The handler a scheduled task fires.
#[derive(Debug, Clone, Copy, PartialEq, Eq)]
pub enum ScheduledTask {
    IdleReminder,
    AttendanceCheck,
    Unknown,
}

impl ScheduledTaskRouter {
    pub fn route(&self, task_name: &str) -> (t: ScheduledTask)
        ensures
            task_name@ == "idle_reminder"@ ==> t == ScheduledTask::IdleReminder,
            task_name@ == "attendance_check"@ ==> t == ScheduledTask::AttendanceCheck,
            task_name@ != "idle_reminder"@ && task_name@ != "attendance_check"@ ==> t == ScheduledTask::Unknown,
    {
        proof {
            reveal_strlit("idle_reminder");
            reveal_strlit("attendance_check");
            assert("idle_reminder"@.len() != "attendance_check"@.len());
        }
        if crate::timer::str_eq(task_name, "idle_reminder") {
            ScheduledTask::IdleReminder
        } else if crate::timer::str_eq(task_name, "attendance_check") {
            ScheduledTask::AttendanceCheck
        } else {
            ScheduledTask::Unknown
        }
    }
}

// ── Attendance check backoff ─────────────────────────────────────────

/// Base cadence of the scheduled attendance check.
pub const ATTENDANCE_BASE_SECS: u64 = 120;
/// Ceiling while the server stays unreachable.
pub const ATTENDANCE_MAX_SECS: u64 = 600;
/// After the first failure, log only every Nth.
pub const ATTENDANCE_LOG_EVERY: u32 = 5;

/// Doubling per consecutive failure (at most three doublings), capped.
pub open spec fn attendance_backoff_spec(failures: u32) -> int {
    crate::devicesync::min_int(
        ATTENDANCE_BASE_SECS as int * crate::devicesync::doubling(crate::devicesync::min_int(failures as int, 3)),
        ATTENDANCE_MAX_SECS as int,
    )
}

/// Doubling per consecutive failure: 240s, 480s, then capped at 10 min.
pub fn attendance_backoff_secs(failures: u32) -> (secs: u64)
    ensures
        secs == attendance_backoff_spec(failures),
{
    let k: u64 = if failures < 3 { failures as u64 } else { 3 };
    assert(ATTENDANCE_BASE_SECS << 0u64 == 120) by (bit_vector);
    assert(ATTENDANCE_BASE_SECS << 1u64 == 240) by (bit_vector);
    assert(ATTENDANCE_BASE_SECS << 2u64 == 480) by (bit_vector);
    assert(ATTENDANCE_BASE_SECS << 3u64 == 960) by (bit_vector);
    let v = ATTENDANCE_BASE_SECS << k;
    if v < ATTENDANCE_MAX_SECS { v } else { ATTENDANCE_MAX_SECS }
}

/// First failure, then only every [`ATTENDANCE_LOG_EVERY`]th.
pub fn should_log_attendance_failure(failures: u32) -> (b: bool)
    ensures
        b == (failures == 1 || failures % ATTENDANCE_LOG_EVERY == 0),
{
    failures == 1 || failures % ATTENDANCE_LOG_EVERY == 0
}

} // verus!

verus! {

// ── Quick-switch entries ─────────────────────────────────────────────

/// A recently used task, as the local cache lists it.
#[derive(Debug, Clone)]
pub struct RecentTask {
    pub id: i64,
    pub name: String,
    pub project_id: Option<i64>,
    pub project_name: Option<String>,
}

/// An entry as plain values.
pub struct EntryView {
    pub task_id: i64,
    pub task_name: Seq<char>,
    pub project_id: i64,
    pub project_name: Seq<char>,
    pub slot: Seq<char>,
}

impl QuickSwitchEntry {
    pub open spec fn view_of(&self) -> EntryView {
        EntryView {
            task_id: self.task_id,
            task_name: self.task_name@,
            project_id: self.project_id,
            project_name: self.project_name@,
            slot: self.slot@,
        }
    }
}

/// The padlock prefix that marks the default task's entry.
pub open spec fn lock_prefix() -> Seq<char> {
    seq!['\u{1F512}', ' ']
}

pub open spec fn skips(skip: Option<i64>, id: i64) -> bool {
    skip matches Some(s) && s == id
}

/// Pinned items, minus the default task, in order.
pub open spec fn manual_part(items: Seq<QuickSwitchItem>, skip: Option<i64>) -> Seq<EntryView>
    decreases items.len(),
{
    if items.len() == 0 {
        Seq::empty()
    } else {
        let prev = manual_part(items.drop_last(), skip);
        let i = items.last();
        if skips(skip, i.task_id) {
            prev
        } else {
            prev.push(
                EntryView {
                    task_id: i.task_id,
                    task_name: i.task_name@,
                    project_id: i.project_id,
                    project_name: i.project_name@,
                    slot: i.slot@,
                },
            )
        }
    }
}

/// Recent tasks, minus the default task, in order; the first four positions
/// of the recent list (counted before skipping) are "main", the rest "small".
pub open spec fn auto_part(recent: Seq<RecentTask>, skip: Option<i64>) -> Seq<EntryView>
    decreases recent.len(),
{
    if recent.len() == 0 {
        Seq::empty()
    } else {
        let prev = auto_part(recent.drop_last(), skip);
        let t = recent.last();
        if skips(skip, t.id) {
            prev
        } else {
            prev.push(
                EntryView {
                    task_id: t.id,
                    task_name: t.name@,
                    project_id: match t.project_id {
                        Some(p) => p,
                        None => 0,
                    },
                    project_name: match t.project_name {
                        Some(n) => n@,
                        None => Seq::empty(),
                    },
                    slot: if recent.len() - 1 < 4 {
                        "main"@
                    } else {
                        "small"@
                    },
                },
            )
        }
    }
}

/// Skipping a task leaves none of its entries among the pinned items.
proof fn lemma_manual_skips(items: Seq<QuickSwitchItem>, id: i64)
    ensures
        forall|i: int| 0 <= i < manual_part(items, Some(id)).len() ==> (#[trigger] manual_part(items, Some(id))[i]).task_id
            != id,
    decreases items.len(),
{
    if items.len() > 0 {
        lemma_manual_skips(items.drop_last(), id);
        let prev = manual_part(items.drop_last(), Some(id));
        let m = manual_part(items, Some(id));
        assert forall|i: int| 0 <= i < m.len() implies (#[trigger] m[i]).task_id != id by {
            if i < prev.len() {
                assert(m[i] == prev[i]);
            }
        }
    }
}

/// Skipping a task leaves none of its entries among the recent tasks.
proof fn lemma_auto_skips(recent: Seq<RecentTask>, id: i64)
    ensures
        forall|i: int| 0 <= i < auto_part(recent, Some(id)).len() ==> (#[trigger] auto_part(recent, Some(id))[i]).task_id != id,
    decreases recent.len(),
{
    if recent.len() > 0 {
        lemma_auto_skips(recent.drop_last(), id);
        let prev = auto_part(recent.drop_last(), Some(id));
        let m = auto_part(recent, Some(id));
        assert forall|i: int| 0 <= i < m.len() implies (#[trigger] m[i]).task_id != id by {
            if i < prev.len() {
                assert(m[i] == prev[i]);
            }
        }
    }
}

/// Neither the pinned part nor the recent part lists the skipped task.
pub proof fn lemma_parts_skip(items: Seq<QuickSwitchItem>, recent: Seq<RecentTask>, id: i64)
    ensures
        forall|i: int| 0 <= i < manual_part(items, Some(id)).len() ==> (#[trigger] manual_part(items, Some(id))[i]).task_id
            != id,
        forall|i: int| 0 <= i < auto_part(recent, Some(id)).len() ==> (#[trigger] auto_part(recent, Some(id))[i]).task_id != id,
{
    lemma_manual_skips(items, id);
    lemma_auto_skips(recent, id);
}

/// The quick-switch list: the default task first (marked with a padlock),
/// then the pinned items in manual mode or the recent tasks otherwise.
pub open spec fn quick_switch_spec(
    default_task: Option<DefaultTaskConfig>,
    manual: bool,
    items: Seq<QuickSwitchItem>,
    recent: Seq<RecentTask>,
) -> Seq<EntryView> {
    let skip = match default_task {
        Some(d) => Some(d.task_id),
        None => None,
    };
    let head = match default_task {
        Some(d) => seq![
            EntryView {
                task_id: d.task_id,
                task_name: lock_prefix() + d.task_name@,
                project_id: d.project_id,
                project_name: d.project_name@,
                slot: "main"@,
            },
        ],
        None => Seq::empty(),
    };
    head + if manual {
        manual_part(items, skip)
    } else {
        auto_part(recent, skip)
    }
}

pub open spec fn entries_view(v: Seq<QuickSwitchEntry>) -> Seq<EntryView> {
    v.map_values(|e: QuickSwitchEntry| e.view_of())
}

/// Build the quick-switch list. `mode` is the stored mode ("manual" pins
/// items; anything else is automatic).
pub fn build_quick_switch_entries(
    default_task: Option<DefaultTaskConfig>,
    mode: &str,
    items: Vec<QuickSwitchItem>,
    recent: Vec<RecentTask>,
) -> (res: Vec<QuickSwitchEntry>)
    ensures
        entries_view(res@) == quick_switch_spec(default_task, mode@ == "manual"@, items@, recent@),
{
    let skip: Option<i64> = match &default_task {
        Some(d) => Some(d.task_id),
        None => None,
    };
    let mut entries: Vec<QuickSwitchEntry> = Vec::new();
    let ghost head: Seq<EntryView> = Seq::empty();
    match default_task {
        Some(d) => {
            let mut name: Vec<char> = Vec::new();
            name.push('\u{1F512}');
            name.push(' ');
            let dn = to_chars(d.task_name.as_str());
            let mut k: usize = 0;
            while k < dn.len()
                invariant
                    k <= dn@.len(),
                    name@ == lock_prefix() + dn@.take(k as int),
                decreases dn@.len() - k,
            {
                name.push(dn[k]);
                assert(dn@.take(k + 1) =~= dn@.take(k as int).push(dn@[k as int]));
                k += 1;
            }
            assert(dn@.take(dn@.len() as int) == dn@);
            entries.push(
                QuickSwitchEntry {
                    task_id: d.task_id,
                    task_name: from_chars(name.as_slice()),
                    project_id: d.project_id,
                    project_name: d.project_name,
                    slot: String::from_str("main"),
                },
            );
            proof {
                head = entries_view(entries@);
            }
        },
        None => {},
    }
    assert(entries_view(entries@) == head);
    if crate::timer::str_eq(mode, "manual") {
        let ghost all = items@;
        let n = items.len();
        let mut rest = items;
        let mut i: usize = 0;
        while rest.len() > 0
            invariant
                i <= all.len(),
                all.len() == n,
                rest@ == all.skip(i as int),
                entries_view(entries@) == head + manual_part(all.take(i as int), skip),
            decreases rest@.len(),
        {
            let it = rest.remove(0);
            assert(it == all[i as int]);
            assert(all.take(i + 1).drop_last() == all.take(i as int));
            assert(all.take(i + 1).last() == all[i as int]);
            let keep = match skip {
                Some(s) => s != it.task_id,
                None => true,
            };
            assert(keep == !skips(skip, all[i as int].task_id));
            let ghost before = entries@;
            if keep {
                entries.push(
                    QuickSwitchEntry {
                        task_id: it.task_id,
                        task_name: it.task_name,
                        project_id: it.project_id,
                        project_name: it.project_name,
                        slot: it.slot,
                    },
                );
                assert(entries_view(entries@) =~= entries_view(before).push(entries@.last().view_of()));
            }
            assert(entries_view(entries@) =~= head + manual_part(all.take(i + 1), skip));
            assert(rest@ == all.skip(i + 1));
            i += 1;
        }
        assert(all.take(all.len() as int) == all);
        return entries;
    }
    let ghost all = recent@;
    let n = recent.len();
    let mut rest = recent;
    let mut i: usize = 0;
    while rest.len() > 0
        invariant
            i <= all.len(),
            all.len() == n,
            rest@ == all.skip(i as int),
            entries_view(entries@) == head + auto_part(all.take(i as int), skip),
        decreases rest@.len(),
    {
        let t = rest.remove(0);
        assert(t == all[i as int]);
        assert(all.take(i + 1).drop_last() == all.take(i as int));
        assert(all.take(i + 1).last() == all[i as int]);
        let keep = match skip {
            Some(s) => s != t.id,
            None => true,
        };
        assert(keep == !skips(skip, all[i as int].id));
        let ghost before = entries@;
        if keep {
            let slot = if i < 4 { String::from_str("main") } else { String::from_str("small") };
            entries.push(
                QuickSwitchEntry {
                    task_id: t.id,
                    task_name: t.name,
                    project_id: match t.project_id {
                        Some(p) => p,
                        None => 0,
                    },
                    project_name: match t.project_name {
                        Some(p) => p,
                        None => String::new(),
                    },
                    slot,
                },
            );
            assert(entries_view(entries@) =~= entries_view(before).push(entries@.last().view_of()));
        }
        assert(entries_view(entries@) =~= head + auto_part(all.take(i + 1), skip));
        assert(rest@ == all.skip(i + 1));
        i += 1;
    }
    assert(all.take(all.len() as int) == all);
    entries
}

} // verus!
