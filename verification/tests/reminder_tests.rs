use pointeuse::reminder::{
    build_quick_switch_entries, idle_reminder_step, is_valid_interval, next_reminder_delay, reminder_tick,
    set_interval, should_log_attendance_failure, IdleReminderStep, RecentTask, ReminderState, ScheduledTask,
    ScheduledTaskRouter,
};
use pointeuse::settings::{DefaultTaskConfig, QuickSwitchItem};

#[test]
fn only_listed_intervals_are_accepted() {
    for m in [0u64, 5, 10, 15, 30, 60] {
        assert!(is_valid_interval(m));
    }
    for m in [7u64, 90, 120, 180, 240] {
        assert!(!is_valid_interval(m));
    }
    let mut s = ReminderState::default();
    assert!(set_interval(&mut s, 45).is_err());
    assert_eq!(s.interval_minutes, 0);
    set_interval(&mut s, 15).unwrap();
    assert_eq!(s.interval_minutes, 15);
}

#[test]
fn the_popup_fires_once_the_interval_is_reached() {
    let mut s = ReminderState::default();
    s.interval_minutes = 1;
    let (e, show) = reminder_tick(&mut s, 0, true);
    assert_eq!((e, show), (30, false));
    let (e, show) = reminder_tick(&mut s, e, true);
    assert_eq!((e, show), (0, true));
    assert!(s.popup_showing);
    // While it shows, the count keeps going and nothing fires.
    let (e, show) = reminder_tick(&mut s, 60, true);
    assert_eq!((e, show), (90, false));
}

#[test]
fn no_timer_or_reminders_off_keeps_the_count_at_zero() {
    let mut s = ReminderState::default();
    assert_eq!(reminder_tick(&mut s, 100, true), (0, false));
    s.interval_minutes = 5;
    assert_eq!(reminder_tick(&mut s, 100, false), (0, false));
}

#[test]
fn dismissing_restarts_the_full_interval() {
    let mut s = ReminderState::default();
    s.interval_minutes = 5;
    s.popup_showing = true;
    s.dismiss();
    assert!(!s.popup_showing);
    let (e, show) = reminder_tick(&mut s, 280, true);
    assert_eq!((e, show), (30, false));
    assert!(!s.reset_elapsed);
}

#[test]
fn the_scheduled_reminder_follows_the_state() {
    let mut s = ReminderState::default();
    s.scheduled_task_id = Some("t1".to_string());
    assert_eq!(idle_reminder_step(&mut s, false), IdleReminderStep::NotRunning);
    assert_eq!(s.scheduled_task_id, None);
    assert_eq!(idle_reminder_step(&mut s, true), IdleReminderStep::Disabled);
    s.interval_minutes = 10;
    assert_eq!(idle_reminder_step(&mut s, true), IdleReminderStep::Show);
    assert!(s.popup_showing);
    assert_eq!(idle_reminder_step(&mut s, true), IdleReminderStep::RescheduleOnly);
    assert_eq!(next_reminder_delay(&mut s, true), Some(600));
    assert_eq!(next_reminder_delay(&mut s, false), None);
}

#[test]
fn scheduled_tasks_route_by_name() {
    let r = ScheduledTaskRouter;
    assert_eq!(r.route("idle_reminder"), ScheduledTask::IdleReminder);
    assert_eq!(r.route("attendance_check"), ScheduledTask::AttendanceCheck);
    assert_eq!(r.route("other"), ScheduledTask::Unknown);
}

#[test]
fn attendance_failures_log_sparsely() {
    assert!(should_log_attendance_failure(1));
    assert!(!should_log_attendance_failure(2));
}

fn recent(id: i64, name: &str) -> RecentTask {
    RecentTask { id, name: name.to_string(), project_id: Some(100 + id), project_name: Some("P".to_string()) }
}

#[test]
fn quick_switch_puts_the_default_task_first_and_skips_its_duplicate() {
    let dt = DefaultTaskConfig {
        task_id: 2,
        task_name: "Admin".to_string(),
        project_id: 9,
        project_name: "Internal".to_string(),
    };
    let rs = vec![recent(1, "a"), recent(2, "b"), recent(3, "c"), recent(4, "d"), recent(5, "e")];
    let es = build_quick_switch_entries(Some(dt), "auto", Vec::new(), rs);
    let ids: Vec<i64> = es.iter().map(|e| e.task_id).collect();
    assert_eq!(ids, vec![2, 1, 3, 4, 5]);
    assert_eq!(es[0].task_name, "\u{1F512} Admin");
    assert_eq!(es[3].slot, "main");
    assert_eq!(es[4].slot, "small");
}

#[test]
fn manual_mode_lists_the_pinned_items() {
    let item = QuickSwitchItem {
        task_id: 8,
        task_name: "Pinned".to_string(),
        project_id: 1,
        project_name: "P".to_string(),
        slot: "small".to_string(),
    };
    let es = build_quick_switch_entries(None, "manual", vec![item], vec![recent(1, "a")]);
    assert_eq!(es.len(), 1);
    assert_eq!(es[0].task_id, 8);
    assert_eq!(es[0].slot, "small");
}
