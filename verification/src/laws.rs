//! Properties of the library that span several calls or hold of every
//! input: the cadences stay within their bounds and only slow down, a fresh
//! run's elapsed time is its wall time, an attendance status seen twice
//! is reported once, the idle reminder never shows twice without an answer
//! and restarts its full interval once answered, and the days entries are
//! grouped by are their dates sorted without repeats, each entry in the one
//! day of its date, and a response laid out around a written value reads
//! back as that value. It also says what several operations are for: a run
//! queued here is never adopted again, which errors are final, which lines a
//! date range lists, when a recent task is suggested, and that the default
//! task is listed once.
use vstd::prelude::*;

use crate::attendance::{StatusView, last_view, status_changed};
use crate::devicesync::{
    NET_FAILURE_BASE_SECS, NET_FAILURE_MAX_SECS, POLL_BACKGROUND_MAX_SECS, POLL_BACKGROUND_SECS,
    POLL_FOREGROUND_MAX_SECS, POLL_FOREGROUND_SECS, doubling, min_int, net_failure_backoff_spec,
    poll_interval_spec,
};
use crate::reminder::{ATTENDANCE_BASE_SECS, ATTENDANCE_MAX_SECS, TICK_SECS, attendance_backoff_spec, tick_outcome};
use crate::calendar::{lemma_positions_of_contains, positions_of};
use crate::models::lemma_text_lt_irreflexive;
use crate::readback::{lemma_read_response, reads_back, response_layout};
use crate::xmlread::{XmlToken, rpc_response};
use crate::xmlrpc::Val;
use crate::sync::{
    MAX_RETRY_BACKOFF_SECS, distinct_dates, lemma_distinct_dates, lemma_twice_grows, retry_backoff, strictly_sorted,
};
use crate::timer::{SessionMeta, TimerState, stop_result, wall_secs};
use crate::analysis::{DayGap, SuggestionKind, first_new_forgotten, suggestion_plan, under_logged_plan};
use crate::devicesync::{LiveLine, line_is_remote_run, split_marker_spec};
use crate::odoo::{DateRecord, OdooSession, domain_admits, range_domain_val};
use crate::reminder::{EntryView, auto_part, manual_part, quick_switch_spec};
use crate::settings::{DefaultTaskConfig, QuickSwitchItem};
use crate::reminder::RecentTask;
use crate::sync::{is_permanent, lowercase_of, permanent_indicators};
use crate::text::contains_seq;

verus! {

proof fn lemma_doubling_grows(a: int, b: int)
    requires
        a <= b,
    ensures
        1 <= doubling(a) <= doubling(b) <= 16,
{
}

/// The sync poll never runs faster than its base cadence nor slower than
/// its ceiling, and only slows down as quiet passes accumulate.
pub proof fn law_poll_interval_bounded(visible: bool, q1: u32, q2: u32)
    requires
        q1 <= q2,
    ensures
        visible ==> POLL_FOREGROUND_SECS <= poll_interval_spec(visible, q1) <= POLL_FOREGROUND_MAX_SECS,
        !visible ==> POLL_BACKGROUND_SECS <= poll_interval_spec(visible, q1) <= POLL_BACKGROUND_MAX_SECS,
        poll_interval_spec(visible, q1) <= poll_interval_spec(visible, q2),
{
    lemma_doubling_grows(min_int(q1 as int, 4), min_int(q2 as int, 4));
}

/// The network-failure backoff starts at a minute, never exceeds ten
/// minutes, and never shrinks as failures accumulate.
pub proof fn law_net_failure_backoff_bounded(f1: u32, f2: u32)
    requires
        f1 <= f2,
    ensures
        NET_FAILURE_BASE_SECS <= net_failure_backoff_spec(f1) <= NET_FAILURE_MAX_SECS,
        net_failure_backoff_spec(f1) <= net_failure_backoff_spec(f2),
{
    let k1 = if f1 == 0 { 0 } else { f1 - 1 };
    let k2 = if f2 == 0 { 0 } else { f2 - 1 };
    lemma_doubling_grows(min_int(k1, 4), min_int(k2, 4));
}

/// The attendance check keeps its base cadence while checks succeed, backs
/// off to at most ten minutes, and never shrinks as failures accumulate.
pub proof fn law_attendance_backoff_bounded(f1: u32, f2: u32)
    requires
        f1 <= f2,
    ensures
        attendance_backoff_spec(0) == ATTENDANCE_BASE_SECS,
        ATTENDANCE_BASE_SECS <= attendance_backoff_spec(f1) <= ATTENDANCE_MAX_SECS,
        attendance_backoff_spec(f1) <= attendance_backoff_spec(f2),
{
    lemma_doubling_grows(min_int(f1 as int, 3), min_int(f2 as int, 3));
}

/// A queued entry's retry wait is never negative nor over an hour, and
/// never shrinks with more retries.
pub proof fn law_retry_backoff_bounded(r1: i64, r2: i64)
    requires
        r1 <= r2,
    ensures
        0 <= retry_backoff(r1) <= MAX_RETRY_BACKOFF_SECS,
        retry_backoff(r1) <= retry_backoff(r2),
{
    if r1 > 0 {
        lemma_twice_grows((r1 - 1) as nat, (r2 - 1) as nat);
    } else if r2 > 0 {
        lemma_twice_grows((r2 - 1) as nat, (r2 - 1) as nat);
    }
}

/// Stopping a run started at `start_ns` with nothing accumulated reports its
/// wall time in whole seconds (none when the clock went backwards).
pub proof fn law_fresh_run_elapsed(
    task_id: i64,
    task_name: String,
    project_id: i64,
    project_name: String,
    session: SessionMeta,
    start_ns: i64,
    now_ns: i64,
)
    ensures
        stop_result(
            TimerState::Running {
                task_id,
                task_name,
                project_id,
                project_name,
                start_time: start_ns,
                accumulated_secs: 0,
                session,
            },
            now_ns,
        ).elapsed_secs == wall_secs(start_ns, now_ns),
        wall_secs(start_ns, now_ns) == if now_ns > start_ns { (now_ns - start_ns) / 1_000_000_000 } else { 0 },
{
    assert(wall_secs(start_ns, now_ns) <= u64::MAX) by {
        if now_ns > start_ns {
            assert((now_ns - start_ns) / 1_000_000_000 <= now_ns - start_ns);
        }
    }
}

/// An attendance status is reported as a change at most once: once it is
/// the last status seen, seeing it again is no change.
pub proof fn law_status_reported_once(status: StatusView)
    ensures
        !status_changed(Some(status), status),
        status_changed(None, status),
{
}

/// The dates a sync pass checks for duplicates, and the days a month's
/// summary lists, are the entries' dates sorted with repeats removed: each
/// sorts strictly before the next, and a date is listed exactly when some
/// entry carries it.
pub proof fn law_unique_dates_sorted_and_complete(dates: Seq<Seq<char>>)
    ensures
        strictly_sorted(distinct_dates(dates)),
        forall|d: Seq<char>| #[trigger] distinct_dates(dates).contains(d) <==> dates.contains(d),
{
    lemma_distinct_dates(dates);
}

/// Every entry of a month lands in exactly one day of the summary: the day
/// of its own date, whose list of entries holds its position; no other day's
/// list does.
pub proof fn law_day_groups_partition(dates: Seq<Seq<char>>, k: int)
    requires
        0 <= k < dates.len(),
    ensures
        exists|i: int| 0 <= i < distinct_dates(dates).len() && #[trigger] distinct_dates(dates)[i] == dates[k],
        forall|i: int|
            0 <= i < distinct_dates(dates).len() ==> (positions_of(dates, #[trigger] distinct_dates(dates)[i]).contains(k)
                <==> distinct_dates(dates)[i] == dates[k]),
        forall|i: int, j: int|
            0 <= i < j < distinct_dates(dates).len() ==> #[trigger] distinct_dates(dates)[i] != #[trigger] distinct_dates(
                dates,
            )[j],
{
    let g = distinct_dates(dates);
    lemma_distinct_dates(dates);
    assert(dates.contains(dates[k]));
    assert(g.contains(dates[k]));
    assert forall|i: int| 0 <= i < g.len() implies (positions_of(dates, #[trigger] g[i]).contains(k) <==> g[i]
        == dates[k]) by {
        lemma_positions_of_contains(dates, g[i], k);
    }
    assert forall|i: int, j: int| 0 <= i < j < g.len() implies #[trigger] g[i] != #[trigger] g[j] by {
        lemma_text_lt_irreflexive(g[i]);
    }
}

/// While the idle reminder's popup is showing, no wake-up shows it again:
/// the popup stays up and the count keeps growing (or rests at zero when
/// reminders are off or no timer runs).
pub proof fn law_reminder_not_shown_twice(interval_minutes: u64, reset_pending: bool, elapsed: u64, timer_running: bool)
    ensures
        !tick_outcome(interval_minutes, true, reset_pending, elapsed, timer_running).1,
        tick_outcome(interval_minutes, true, reset_pending, elapsed, timer_running).2,
{
}

/// With reminders off, or with no timer running, nothing is ever shown and
/// the count stays at zero.
pub proof fn law_reminder_silent_when_off_or_idle(
    interval_minutes: u64,
    popup_showing: bool,
    reset_pending: bool,
    elapsed: u64,
    timer_running: bool,
)
    requires
        interval_minutes == 0 || !timer_running,
    ensures
        tick_outcome(interval_minutes, popup_showing, reset_pending, elapsed, timer_running) == (0int, false, popup_showing),
{
}

/// Once the popup is answered (hidden, with a reset pending), the count starts
/// over from zero: the next wake-up of a running timer counts one tick and shows
/// nothing, whatever the count was.
pub proof fn law_reminder_answer_restarts_interval(interval_minutes: u64, elapsed: u64)
    requires
        interval_minutes * 60 > TICK_SECS,
    ensures
        tick_outcome(interval_minutes, false, true, elapsed, true) == (TICK_SECS as int, false, false),
{
}

/// Without an answer, a running timer's reminder shows exactly when the count
/// reaches the interval, and the count then starts over.
pub proof fn law_reminder_fires_at_interval(interval_minutes: u64, elapsed: u64)
    requires
        interval_minutes > 0,
    ensures
        tick_outcome(interval_minutes, false, false, elapsed, true).1 <==> elapsed + TICK_SECS >= interval_minutes * 60,
        tick_outcome(interval_minutes, false, false, elapsed, true).1 ==> tick_outcome(
            interval_minutes,
            false,
            false,
            elapsed,
            true,
        ).0 == 0,
{
}

/// A response whose tokens lay out one value the way the writer writes it
/// (`<value>`, its typed element, `</value>`; arrays through `<data>`, structs
/// through `<member>` with `<name>`, and each text unescaping to what was
/// written) reads back as that value, provided its doubles are number texts
/// without surrounding whitespace and no struct names a key twice.
/// `parse_method_response` gives this result for the tokens of its text.
pub proof fn law_response_reads_back(t: Seq<XmlToken>, v: Val)
    requires
        reads_back(v),
        response_layout(t, v),
    ensures
        rpc_response(t, 0).0 == Ok::<Val, Seq<char>>(v),
{
    lemma_read_response(t, v);
}

// ── What the operations are for ──────────────────────────────────────

/// A live line whose session this device has already queued for settlement
/// (it was just stopped here) never becomes a remote run to adopt again.
pub proof fn law_queued_session_not_adopted(line: LiveLine, queued: Seq<String>, k: int)
    requires
        0 <= k < queued.len(),
        split_marker_spec(line.name@).1 is Some,
        queued[k]@ == split_marker_spec(line.name@).1->Some_0.session_id,
    ensures
        !line_is_remote_run(line, queued),
{
}

/// A server error is permanent exactly when its lowercased text contains one
/// of the phrases the queue treats as final: a private task, denied access or
/// rights, a forbidden or disallowed operation, something that cannot be
/// created or does not exist, or a validation error.
pub proof fn law_permanent_error_phrases(msg: Seq<char>)
    ensures
        is_permanent(msg) <==> ({
            let l = lowercase_of(msg);
            ||| contains_seq(l, "private task"@)
            ||| contains_seq(l, "access denied"@)
            ||| contains_seq(l, "access error"@)
            ||| contains_seq(l, "permission denied"@)
            ||| contains_seq(l, "not allowed"@)
            ||| contains_seq(l, "cannot be created"@)
            ||| contains_seq(l, "forbidden"@)
            ||| contains_seq(l, "access right"@)
            ||| contains_seq(l, "access rights"@)
            ||| contains_seq(l, "does not exist"@)
            ||| contains_seq(l, "record not found"@)
            ||| contains_seq(l, "validation error"@)
        }),
{
    let l = lowercase_of(msg);
    let ind = permanent_indicators();
    assert(ind.len() == 12);
    assert(ind[0] == "private task"@);
    assert(ind[1] == "access denied"@);
    assert(ind[2] == "access error"@);
    assert(ind[3] == "permission denied"@);
    assert(ind[4] == "not allowed"@);
    assert(ind[5] == "cannot be created"@);
    assert(ind[6] == "forbidden"@);
    assert(ind[7] == "access right"@);
    assert(ind[8] == "access rights"@);
    assert(ind[9] == "does not exist"@);
    assert(ind[10] == "record not found"@);
    assert(ind[11] == "validation error"@);
    if is_permanent(msg) {
        let k = choose|k: int| 0 <= k < ind.len() && contains_seq(l, #[trigger] ind[k]);
        assert(k == 0 || k == 1 || k == 2 || k == 3 || k == 4 || k == 5 || k == 6 || k == 7 || k == 8 || k == 9
            || k == 10 || k == 11);
    }
    assert forall|j: int| 0 <= j < 12 && contains_seq(l, #[trigger] ind[j]) implies is_permanent(msg) by {}
}

/// The lines a date range lists are exactly the owner's lines dated from
/// `start` to `end`, both days included (dates compare as ISO text does).
pub proof fn law_range_domain_inclusive(s: OdooSession, start: Seq<char>, end: Seq<char>, rec: DateRecord)
    ensures
        domain_admits(range_domain_val(s, start, end), rec) <==> {
            &&& !crate::models::text_lt(rec.date, start)
            &&& !crate::models::text_lt(end, rec.date)
            &&& match s.employee_id {
                Some(e) => rec.employee_id == Some(e),
                None => rec.user_id == s.uid,
            }
        },
{
    crate::odoo::lemma_clause_names();
    let d = range_domain_val(s, start, end);
    assert(d.len() == 3);
}

/// When the first daily task's usual hours cover the whole gap, no recently
/// worked task is suggested on top of it; and a suggested recent task is
/// never one of the daily tasks.
pub proof fn law_no_forgotten_without_gap_left(
    gap: DayGap,
    recurring: Seq<i64>,
    forgotten: Seq<i64>,
    entries: nat,
    largest: Option<usize>,
    i: int,
)
    requires
        0 <= i < suggestion_plan(gap, recurring, forgotten, entries, largest).len(),
        forgotten.len() <= usize::MAX,
    ensures
        !gap.gap_left_after_recurring ==> !(suggestion_plan(gap, recurring, forgotten, entries, largest)[i] is AddForgotten),
        suggestion_plan(gap, recurring, forgotten, entries, largest)[i] matches SuggestionKind::AddForgotten(k) ==> (
            0 <= k < forgotten.len() && !recurring.contains(forgotten[k as int])),
{
    crate::analysis::lemma_forgotten_in_plan(gap, recurring, forgotten, entries, largest, i);
}

/// With a default task configured, the quick-switch list names it exactly
/// once: first, whatever the pinned items or recent tasks hold, in manual
/// mode as in automatic mode.
pub proof fn law_default_task_listed_once(
    d: DefaultTaskConfig,
    manual: bool,
    items: Seq<QuickSwitchItem>,
    recent: Seq<RecentTask>,
    i: int,
)
    requires
        0 <= i < quick_switch_spec(Some(d), manual, items, recent).len(),
    ensures
        quick_switch_spec(Some(d), manual, items, recent)[0].task_id == d.task_id,
        (quick_switch_spec(Some(d), manual, items, recent)[i].task_id == d.task_id) <==> i == 0,
{
    crate::reminder::lemma_parts_skip(items, recent, d.task_id);
    let q = quick_switch_spec(Some(d), manual, items, recent);
    let rest = if manual { manual_part(items, Some(d.task_id)) } else { auto_part(recent, Some(d.task_id)) };
    if i > 0 {
        assert(q[i] == rest[i - 1]);
    }
}

} // verus!
