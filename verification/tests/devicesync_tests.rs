use pointeuse::devicesync::{
    mark_description, net_failure_backoff, poll_interval, should_log_failure, split_marker,
    FAILURE_LOG_EVERY,
};
use pointeuse::reminder::attendance_backoff_secs;
use pointeuse::timer::SessionMeta;

fn session(id: &str, device: &str, label: &str) -> SessionMeta {
    SessionMeta {
        session_id: id.to_string(),
        origin_device: device.to_string(),
        origin_label: label.to_string(),
        odoo_line_id: None,
    }
}

#[test]
fn round_trips() {
    let start: i64 = 1_754_300_000;
    let marked = mark_description("Fix the login bug", &session("s1", "dev1", "Pixel 8"), start);
    let (clean, parsed) = split_marker(&marked);
    let parsed = parsed.expect("marker should parse");
    assert_eq!(clean, "Fix the login bug");
    assert_eq!(parsed.session_id, "s1");
    assert_eq!(parsed.device_id, "dev1");
    assert_eq!(parsed.device_label, "Pixel 8");
    assert_eq!(parsed.start, start);
}

#[test]
fn leaves_ordinary_descriptions_alone() {
    let (clean, parsed) = split_marker("Reviewed PR #123 (#4 in the queue)");
    assert_eq!(clean, "Reviewed PR #123 (#4 in the queue)");
    assert!(parsed.is_none());
}

#[test]
fn a_hash_in_the_description_survives_the_round_trip() {
    let start: i64 = 1_754_300_000;
    let marked = mark_description("Fix #123", &session("s2", "dev2", "Desk#top"), start);
    let (clean, parsed) = split_marker(&marked);
    assert_eq!(clean, "Fix #123");
    assert_eq!(parsed.unwrap().device_label, "Desk-top");
}

#[test]
fn the_poll_backs_off_while_nothing_happens() {
    assert_eq!(poll_interval(true, 0), 15);
    assert_eq!(poll_interval(true, 1), 30);
    assert_eq!(poll_interval(true, 3), 120);
    assert_eq!(poll_interval(true, 99), 120, "foreground must stay capped");

    assert_eq!(poll_interval(false, 0), 60);
    assert_eq!(poll_interval(false, 99), 600, "background must stay capped");

    assert!(poll_interval(true, 0) <= poll_interval(true, 1));
}

#[test]
fn network_failures_back_off_and_log_sparsely() {
    assert_eq!(net_failure_backoff(1), 60);
    assert_eq!(net_failure_backoff(2), 120);
    assert_eq!(net_failure_backoff(4), 480);
    assert_eq!(net_failure_backoff(5), 600);
    assert_eq!(net_failure_backoff(99), 600, "must stay capped");

    assert!(should_log_failure(1));
    assert!(!should_log_failure(2));
    assert!(should_log_failure(FAILURE_LOG_EVERY));
    assert!(!should_log_failure(FAILURE_LOG_EVERY + 1));
    assert!(should_log_failure(FAILURE_LOG_EVERY * 2));
}

#[test]
fn rejects_a_truncated_marker() {
    let (clean, parsed) = split_marker("Some work #PTZ1#s3#dev3#");
    assert_eq!(clean, "Some work");
    assert!(parsed.is_none());
}

#[test]
fn failed_checks_back_off_to_a_ceiling() {
    assert_eq!(attendance_backoff_secs(0), 120, "base cadence untouched");
    assert_eq!(attendance_backoff_secs(1), 240);
    assert_eq!(attendance_backoff_secs(2), 480);
    assert_eq!(attendance_backoff_secs(3), 600);
    assert_eq!(attendance_backoff_secs(99), 600, "must stay capped");
}

#[test]
fn a_marker_start_must_be_a_representable_instant() {
    // 1 Jan -262143, 00:00 UTC: the earliest instant chrono holds.
    let first: i64 = -8_334_601_228_800;
    let ok = mark_description("Old", &session("s4", "dev4", "Box"), first);
    assert_eq!(split_marker(&ok).1.map(|m| m.start), Some(first));
    let before = mark_description("Old", &session("s4", "dev4", "Box"), first - 1);
    assert!(split_marker(&before).1.is_none());
    let last: i64 = 8_210_266_876_799;
    assert!(split_marker(&mark_description("New", &session("s5", "dev5", "Box"), last)).1.is_some());
    assert!(split_marker(&mark_description("New", &session("s5", "dev5", "Box"), last + 1)).1.is_none());
}
