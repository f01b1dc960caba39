use pointeuse::attendance::{status_after_check_in, status_after_check_out};
use pointeuse::display::{check_in_clock, clock, ongoing_title, reminder_body, reminder_title, tray_labels};
use pointeuse::display::{popup_entries, script_escape};
use pointeuse::reminder::QuickSwitchEntry;
use pointeuse::cache::{cache_is_stale, max_age_for_date, CacheEntry};
use pointeuse::credentials::{clear_outcome, load_outcome, save_outcome, KeyringFailure};
use pointeuse::decimal::{float_trunc_of, int_error_of, is_float_literal, IntErrorKind};
use pointeuse::devicesync::{
    choose_identity, decide_pull, id_from, next_poll_delay, next_quiet_passes, push_step, sanitize, LocalRunInfo,
    PushStep, RemoteRun, SessionMarker,
};
use pointeuse::error::AppError;
use pointeuse::outbox::OutboxAction;

fn chars(s: &str) -> Vec<char> {
    s.chars().collect()
}

#[test]
fn outbox_actions_round_trip_through_their_names() {
    for a in [OutboxAction::Finalize, OutboxAction::Discard] {
        assert_eq!(OutboxAction::parse(a.as_str()), a);
    }
    assert_eq!(OutboxAction::parse("anything"), OutboxAction::Finalize);
}

#[test]
fn integer_and_float_texts() {
    assert_eq!(int_error_of(&chars("")), IntErrorKind::Empty);
    assert_eq!(int_error_of(&chars("-")), IntErrorKind::InvalidDigit);
    assert_eq!(int_error_of(&chars("-99999999999999999999")), IntErrorKind::NegOverflow);
    assert!(is_float_literal(&chars("1e5")));
    assert!(is_float_literal(&chars("inf")));
    assert!(is_float_literal(&chars(".5")));
    assert!(!is_float_literal(&chars("1.2.3")));
    assert_eq!(float_trunc_of(&chars("1e30")), i64::MAX);
    assert_eq!(float_trunc_of(&chars("-0.9")), 0);
    assert_eq!(float_trunc_of(&chars("NaN")), 0);
}

#[test]
fn cache_freshness() {
    assert_eq!(max_age_for_date("2026-03-25", "2026-03-25"), 60);
    assert_eq!(max_age_for_date("2026-03-24", "2026-03-25"), 3600);
    assert!(cache_is_stale(None, 60));
    assert!(cache_is_stale(Some(61), 60));
    assert!(!cache_is_stale(Some(60), 60));
    let e = CacheEntry::new(vec![1, 2]);
    assert_eq!(e.data, vec![1, 2]);
    assert!(!e.is_stale(u64::MAX));
}

#[test]
fn keyring_outcomes() {
    let missing = KeyringFailure { no_entry: true, message: "No matching entry".into() };
    let broken = KeyringFailure { no_entry: false, message: "locked".into() };
    assert!(save_outcome(Ok(())).is_ok());
    assert_eq!(save_outcome(Err(broken.clone())), Err(AppError::Keyring("locked".into())));
    assert_eq!(load_outcome(Ok("pw".into())), Ok(Some("pw".into())));
    assert_eq!(load_outcome(Err(missing.clone())), Ok(None));
    assert_eq!(load_outcome(Err(broken.clone())), Err(AppError::Keyring("locked".into())));
    assert!(clear_outcome(Err(missing)).is_ok());
    assert!(clear_outcome(Err(broken)).is_err());
}

#[test]
fn identities_and_ids() {
    assert_eq!(id_from(0, 0), "0000000000000000");
    assert_eq!(id_from(0xff, 0), "00000000000000ff");
    assert_eq!(id_from(0, 1), "0000000000020000");
    let (id, minted) = choose_identity(Some("abc".into()), Some("  ".into()), "fresh".into(), "My PC".into());
    assert_eq!((id.id.as_str(), id.label.as_str(), minted), ("abc", "My PC", false));
    let (id, minted) = choose_identity(Some("".into()), Some("Desk".into()), "fresh".into(), "My PC".into());
    assert_eq!((id.id.as_str(), id.label.as_str(), minted), ("fresh", "Desk", true));
    assert_eq!(sanitize("a#b#c"), "a-b-c");
}

#[test]
fn the_poll_cadence() {
    assert_eq!(next_quiet_passes(true, 7), 0);
    assert_eq!(next_quiet_passes(false, 7), 8);
    assert_eq!(next_quiet_passes(false, u32::MAX), u32::MAX);
    assert_eq!(next_poll_delay(true, 0, true, 3), 240);
    assert_eq!(next_poll_delay(true, 0, false, 3), 15);
    assert_eq!(next_poll_delay(false, 9, true, 1), 600);
}

#[test]
fn only_the_origin_device_writes_its_line() {
    assert_eq!(push_step("a", "b", false, None, "s", None), PushStep::Idle);
    assert_eq!(push_step("a", "a", false, None, "s", None), PushStep::Publish);
    assert_eq!(push_step("a", "a", true, Some(true), "s", Some(("s", 10))), PushStep::Idle);
    assert_eq!(push_step("a", "a", true, Some(true), "s", Some(("s", 60))), PushStep::Heartbeat);
    assert_eq!(push_step("a", "a", true, Some(true), "s", Some(("old", 1))), PushStep::Heartbeat);
    assert_eq!(push_step("a", "a", true, Some(false), "s", None), PushStep::Idle);
}

fn run(id: &str, start: i64, line: i64) -> RemoteRun {
    RemoteRun {
        line_id: line,
        task_id: 1,
        task_name: "T".into(),
        project_id: 2,
        project_name: "P".into(),
        description: "d".into(),
        date: "2026-03-25".into(),
        marker: SessionMarker { session_id: id.into(), device_id: "dev".into(), device_label: "L".into(), start },
    }
}

#[test]
fn the_newest_start_wins() {
    let rs = vec![run("a", 100, 1), run("b", 300, 2), run("c", 200, 3)];
    let plan = decide_pull(&rs, None, 0);
    assert_eq!(plan.newest, Some(1));
    assert_eq!(plan.losers, vec![0, 2]);
    assert!(plan.adopt_newest && !plan.local_wins);
    let local = LocalRunInfo { session_id: "mine".into(), odoo_line_id: Some(9), start_ns: 400_000_000_000 };
    let plan = decide_pull(&rs, Some(&local), 0);
    assert!(plan.local_wins && !plan.adopt_newest);
    assert_eq!(plan.losers, vec![0, 1, 2]);
}

#[test]
fn a_published_run_missing_twice_was_stopped_elsewhere() {
    let local = LocalRunInfo { session_id: "mine".into(), odoo_line_id: Some(9), start_ns: 0 };
    let plan = decide_pull(&[], Some(&local), 0);
    assert_eq!(plan.missing_polls, 1);
    assert!(!plan.accept_remote_stop);
    let plan = decide_pull(&[], Some(&local), 1);
    assert!(plan.accept_remote_stop);
}

#[test]
fn tray_and_notification_texts() {
    assert_eq!(check_in_clock("2026-03-25 09:30:00"), "09:30");
    assert_eq!(check_in_clock("2026-03-25"), "");
    assert_eq!(check_in_clock("a b"), "b");
    let l = tray_labels(&status_after_check_in(1, "2026-03-25 09:30:00".into()));
    assert_eq!(l.status, "● Checked in (since 09:30)");
    assert_eq!(l.toggle, "Check Out");
    assert_eq!(l.tooltip, "Time Tracker - Checked in since 09:30");
    let l = tray_labels(&status_after_check_out());
    assert_eq!((l.status.as_str(), l.toggle.as_str(), l.tooltip.as_str()), ("○ Not checked in", "Check In", "Time Tracker"));
    assert_eq!(clock(3_725), "01:02:05");
    assert_eq!(clock(360_000), "100:00:00");
    assert_eq!(ongoing_title("Fix", 59), "⏱ 00:00:59 — Fix");
    assert_eq!(reminder_title(3_900), "Still working? — 1h 05m");
    assert_eq!(reminder_title(1_500), "Still working? — 25m");
    assert_eq!(reminder_body("Fix", ""), "Fix");
    assert_eq!(reminder_body("Fix", "Web"), "Fix · Web");
}

#[test]
fn popup_texts_and_entries() {
    assert_eq!(script_escape("it's\nhere"), "it\\'s here");
    let e = |id: i64, slot: &str| QuickSwitchEntry {
        task_id: id,
        task_name: "t".into(),
        project_id: 1,
        project_name: "p".into(),
        slot: slot.into(),
    };
    let es = vec![e(1, "main"), e(2, "small"), e(3, "main"), e(4, "main")];
    assert_eq!(popup_entries(&es, 3), (vec![0, 3], vec![1]));
}
