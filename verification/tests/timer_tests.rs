use pointeuse::timer::{compute_elapsed, SessionMeta, TimerEngine};

/// Milliseconds, as the nanoseconds the engine counts in.
fn ms(x: i64) -> i64 {
    x * 1_000_000
}

fn local() -> SessionMeta {
    SessionMeta::local_only()
}

#[test]
fn start_then_stop_reports_whole_seconds() {
    let mut t = TimerEngine::new();
    assert!(!t.is_running());
    t.start_at(7, "Fix bug".to_string(), 3, "Web".to_string(), local(), ms(1_000_000)).unwrap();
    assert!(t.is_running());
    let r = t.stop_at(ms(1_000_000 + 90_500)).unwrap();
    assert_eq!(r.task_id, 7);
    assert_eq!(r.task_name, "Fix bug");
    assert_eq!(r.project_id, 3);
    assert_eq!(r.elapsed_secs, 90);
    assert!(!t.is_running());
}

#[test]
fn starting_twice_is_refused() {
    let mut t = TimerEngine::new();
    t.start_at(1, "A".to_string(), 1, "P".to_string(), local(), ms(0)).unwrap();
    let e = t.start_at(2, "B".to_string(), 1, "P".to_string(), local(), ms(5)).unwrap_err();
    assert!(matches!(e, pointeuse::error::AppError::Timer(_)));
    assert_eq!(t.get_state_at(ms(5_000)).task_id, Some(1));
}

#[test]
fn stopping_an_idle_timer_is_refused() {
    let mut t = TimerEngine::new();
    assert!(matches!(t.stop_at(ms(10)), Err(pointeuse::error::AppError::Timer(_))));
    assert!(t.discard().is_err());
}

#[test]
fn discard_returns_to_idle() {
    let mut t = TimerEngine::new();
    t.start_at(1, "A".to_string(), 1, "P".to_string(), local(), ms(0)).unwrap();
    t.discard().unwrap();
    assert!(!t.is_running());
    let info = t.get_state_at(ms(60_000));
    assert!(!info.is_running);
    assert_eq!(info.elapsed_secs, 0);
    assert_eq!(info.task_id, None);
}

#[test]
fn restored_runs_keep_their_accumulated_time() {
    let mut t = TimerEngine::new();
    t.restore(4, "T".to_string(), 2, "P".to_string(), ms(10_000), 30, local());
    let info = t.get_state_at(ms(20_000));
    assert!(info.is_running);
    assert_eq!(info.elapsed_secs, 40);
}

#[test]
fn a_clock_that_went_backwards_adds_nothing() {
    assert_eq!(compute_elapsed(12, ms(50_000), ms(40_000)), 12);
    assert_eq!(compute_elapsed(u64::MAX, 0, ms(5_000)), u64::MAX);
}

#[test]
fn a_line_attaches_only_to_its_own_session() {
    let mut t = TimerEngine::new();
    let s = SessionMeta {
        session_id: "sess-1".to_string(),
        origin_device: "dev".to_string(),
        origin_label: "Laptop".to_string(),
        odoo_line_id: None,
    };
    t.start_at(1, "A".to_string(), 1, "P".to_string(), s, ms(0)).unwrap();
    assert!(!t.attach_odoo_line("other", 9));
    assert_eq!(t.session().unwrap().odoo_line_id, None);
    assert!(t.attach_odoo_line("sess-1", 9));
    assert_eq!(t.session().unwrap().odoo_line_id, Some(9));
    let r = t.stop_at(ms(1_000)).unwrap();
    assert_eq!(r.odoo_line_id, Some(9));
    assert_eq!(r.session_id, "sess-1");
}

#[test]
fn the_fresh_run_law_on_concrete_values() {
    let mut t = TimerEngine::new();
    t.start_at(1, "A".to_string(), 1, "P".to_string(), local(), ms(2_000)).unwrap();
    assert_eq!(t.stop_at(ms(9_999)).unwrap().elapsed_secs, 7);
}

#[test]
fn refusals_name_the_timer_state() {
    let mut t = TimerEngine::new();
    assert_eq!(t.stop_at(ms(0)).unwrap_err().message(), "No timer is running");
    assert_eq!(t.discard().unwrap_err().message(), "No timer is running");
    t.start_at(1, "A".to_string(), 2, "P".to_string(), local(), ms(0)).unwrap();
    let e = t.start_at(3, "B".to_string(), 4, "Q".to_string(), local(), ms(5)).unwrap_err();
    assert_eq!(e.message(), "Timer is already running");
    assert_eq!(t.get_state_at(ms(0)).task_id, Some(1));
}

#[test]
fn elapsed_time_counts_whole_seconds_of_the_nanosecond_span() {
    let mut t = TimerEngine::new();
    t.start_at(1, "A".to_string(), 1, "P".to_string(), local(), 999_999_999).unwrap();
    assert_eq!(t.stop_at(1_999_999_998).unwrap().elapsed_secs, 0);
}
