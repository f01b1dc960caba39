use pointeuse::calendar::day_groups;
use pointeuse::devicesync::{adopted_session, loser_description, run_age_secs, RemoteRun, SessionMarker};
use pointeuse::error::{AppError, OdooError};
use pointeuse::models::LineFields;
use pointeuse::persistence::{saved_timer_state, timer_row, TimerRow};
use pointeuse::sync::{duplicate_matches, find_duplicate};
use pointeuse::timelog::{delete_outcome, line_already_gone, outbox_takes, DeleteResult};
use pointeuse::timer::{SessionMeta, TimerResult, TimerState};
use pointeuse::updater::{update_check_failed, update_info, updater_unavailable, FoundUpdate, UpdateInfo};

fn line(id: i64, task: Option<i64>, date: &str) -> LineFields {
    LineFields {
        id,
        name: "n".into(),
        task_id: task.map(|t| (t, "T".to_string())),
        project_id: None,
        date: date.into(),
    }
}

#[test]
fn duplicates_match_task_date_and_hours() {
    let ls = vec![
        line(1, Some(7), "2026-03-25"),
        line(2, Some(7), "2026-03-24"),
        line(3, Some(8), "2026-03-25"),
        line(4, None, "2026-03-25"),
        line(5, Some(7), "2026-03-25"),
        line(6, Some(7), "2026-03-25"),
    ];
    let close = vec![true, true, true, true, false, true];
    assert_eq!(duplicate_matches(&ls, 7, "2026-03-25", &close, None), vec![0, 5]);
    assert_eq!(duplicate_matches(&ls, 7, "2026-03-25", &close, Some(1)), vec![5]);
    assert_eq!(find_duplicate(&ls, 7, "2026-03-25", &close), Some(0));
    assert_eq!(find_duplicate(&ls, 9, "2026-03-25", &close), None);
}

#[test]
fn entries_are_grouped_by_day_in_date_order() {
    let ds: Vec<String> = ["2026-03-25", "2026-03-02", "2026-03-25", "2026-03-10", "2026-03-02"]
        .iter()
        .map(|s| s.to_string())
        .collect();
    let gs = day_groups(&ds);
    let got: Vec<(String, Vec<usize>)> = gs.into_iter().map(|g| (g.date, g.entries)).collect();
    assert_eq!(
        got,
        vec![
            ("2026-03-02".to_string(), vec![1, 4]),
            ("2026-03-10".to_string(), vec![3]),
            ("2026-03-25".to_string(), vec![0, 2]),
        ]
    );
    assert!(day_groups(&[]).is_empty());
}

#[test]
fn a_line_already_gone_counts_as_deleted() {
    assert!(line_already_gone("Record does not exist or has been deleted."));
    assert!(line_already_gone("RECORD NOT FOUND"));
    assert!(!line_already_gone("Access Denied"));
    assert_eq!(delete_outcome(None), Ok(DeleteResult { deleted: true }));
    assert_eq!(
        delete_outcome(Some(AppError::Odoo("Missing Record: Record does not exist".into()))),
        Ok(DeleteResult { deleted: true })
    );
    let refused = AppError::Odoo("Access Denied".into());
    assert_eq!(delete_outcome(Some(refused.clone())), Err(refused));
}

#[test]
fn an_odoo_error_becomes_the_odoo_variant() {
    let e: AppError = OdooError("boom".into()).into();
    assert_eq!(e, AppError::Odoo("boom".into()));
    assert_eq!(e.message(), "boom");
}

#[test]
fn the_update_check_reports_what_was_found() {
    let found = FoundUpdate { version: "1.2.0".into(), body: Some("notes".into()), date: None };
    assert_eq!(
        update_info(Some(found)),
        UpdateInfo { available: true, version: Some("1.2.0".into()), body: Some("notes".into()), date: None }
    );
    assert_eq!(update_info(None), UpdateInfo { available: false, version: None, body: None, date: None });
    assert_eq!(update_check_failed("offline"), AppError::General("Update check failed: offline".into()));
    assert_eq!(updater_unavailable("no key"), AppError::General("Failed to build updater: no key".into()));
}

fn remote(description: &str) -> RemoteRun {
    RemoteRun {
        line_id: 42,
        task_id: 1,
        task_name: "Task".into(),
        project_id: 2,
        project_name: "P".into(),
        description: description.into(),
        date: "2026-03-25".into(),
        marker: SessionMarker {
            session_id: "s1".into(),
            device_id: "dev-a".into(),
            device_label: "Laptop".into(),
            start: 1_000,
        },
    }
}

#[test]
fn taking_over_a_remote_run_keeps_its_session() {
    let s = adopted_session(&remote("x"));
    assert_eq!(
        (s.session_id.as_str(), s.origin_device.as_str(), s.origin_label.as_str(), s.odoo_line_id),
        ("s1", "dev-a", "Laptop", Some(42))
    );
    assert_eq!(loser_description(&remote("")), "Task");
    assert_eq!(loser_description(&remote("notes")), "notes");
    assert_eq!(run_age_secs(1_000, 1_061_999_999_999), 61);
    assert_eq!(run_age_secs(1_000, 999_000_000_000), 0);
}

#[test]
fn only_a_run_with_a_session_goes_to_the_outbox() {
    let mut r = TimerResult {
        task_id: 1,
        task_name: "T".into(),
        project_id: 2,
        project_name: "P".into(),
        elapsed_secs: 10,
        session_id: "s".into(),
        odoo_line_id: None,
    };
    assert!(outbox_takes(&r));
    r.session_id = String::new();
    assert!(!outbox_takes(&r));
}

#[test]
fn a_saved_timer_reads_back_as_the_same_run() {
    let st = TimerState::Running {
        task_id: 5,
        task_name: "Fix".into(),
        project_id: 6,
        project_name: "Web".into(),
        start_time: 1_774_432_800_123_000_000,
        accumulated_secs: 90,
        session: SessionMeta {
            session_id: "abc".into(),
            origin_device: "dev".into(),
            origin_label: "Laptop".into(),
            odoo_line_id: Some(77),
        },
    };
    let row = timer_row(&st).unwrap().unwrap();
    assert_eq!(row.start_utc, "2026-03-25T10:00:00.123+00:00");
    assert_eq!(row.accumulated_secs, 90);
    let back = saved_timer_state(row).unwrap();
    assert_eq!(back.start_ns, 1_774_432_800_123_000_000);
    assert_eq!(back.accumulated_secs, 90);
    assert_eq!((back.task_id, back.task_name.as_str(), back.project_id), (5, "Fix", 6));
    assert_eq!(back.session.odoo_line_id, Some(77));
    assert!(timer_row(&TimerState::Idle).unwrap().is_none());
}

#[test]
fn a_saved_timer_with_a_bad_start_is_an_error() {
    let row = TimerRow {
        task_id: 1,
        task_name: "T".into(),
        project_id: 2,
        project_name: "P".into(),
        start_utc: "yesterday".into(),
        accumulated_secs: -1,
        session_id: String::new(),
        origin_device: String::new(),
        origin_label: String::new(),
        odoo_line_id: None,
    };
    match saved_timer_state(row) {
        Err(AppError::General(m)) => assert!(m.starts_with("Failed to parse saved timer start_utc: ")),
        other => panic!("unexpected: {other:?}"),
    }
}
