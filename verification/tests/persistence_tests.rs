use pointeuse::persistence::{saved_timer_state, timer_row};
use pointeuse::timer::{SessionMeta, TimerEngine};

// The row that `timer_row` builds is what the `timer_state` table stores,
// column for column; `saved_timer_state` reads such a row back.

#[test]
fn a_synced_run_survives_a_restart() {
    let start = chrono::Utc::now().timestamp_nanos_opt().unwrap() - 90_000_000_000;
    let mut engine = TimerEngine::new();
    engine.restore(
        7,
        "Wire up the sync".into(),
        3,
        "Pointeuse".into(),
        start,
        0,
        SessionMeta {
            session_id: "sess-1".into(),
            origin_device: "dev-a".into(),
            origin_label: "Pixel 8".into(),
            odoo_line_id: Some(4242),
        },
    );
    let row = timer_row(engine.raw_state()).unwrap().expect("a saved run");
    let saved = saved_timer_state(row).unwrap();
    assert_eq!(saved.task_id, 7);
    assert_eq!(saved.project_id, 3);
    assert_eq!(saved.session.session_id, "sess-1");
    assert_eq!(saved.session.origin_device, "dev-a");
    assert_eq!(saved.session.origin_label, "Pixel 8");
    assert_eq!(saved.session.odoo_line_id, Some(4242));
    assert_eq!(saved.start_ns, start);
}

#[test]
fn an_unsynced_run_round_trips_with_an_empty_session() {
    let mut engine = TimerEngine::new();
    engine.start(1, "Local only".into(), 2, "Proj".into(), SessionMeta::local_only()).unwrap();
    let row = timer_row(engine.raw_state()).unwrap().expect("a saved run");
    let saved = saved_timer_state(row).unwrap();
    assert!(saved.session.session_id.is_empty());
    assert_eq!(saved.session.odoo_line_id, None);
    engine.discard().unwrap();
    assert!(timer_row(engine.raw_state()).unwrap().is_none());
}

#[test]
fn a_start_keeps_its_nanoseconds() {
    let mut engine = TimerEngine::new();
    let start: i64 = 1_774_432_800_123_456_789;
    engine.restore(1, "T".into(), 2, "P".into(), start, 0, SessionMeta::local_only());
    let row = timer_row(engine.raw_state()).unwrap().expect("a saved run");
    assert_eq!(row.start_utc, "2026-03-25T10:00:00.123456789+00:00");
    assert_eq!(saved_timer_state(row).unwrap().start_ns, start);
}
