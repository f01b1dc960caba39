use pointeuse::auth::{database_from_reply, reply_names};
use pointeuse::credentials::credential_key;
use pointeuse::devicesync::next_net_failures;
use pointeuse::tasks::{user_ids_from_json, user_ids_to_json};
use pointeuse::cache::{prefetch_max_age, CACHE_MAX_AGE_TODAY, PREFETCH_MAX_AGE_PAST};
use pointeuse::error::AppError;
use pointeuse::odoo::{http_failure, line_edit_values, live_lines_domain, looks_like_xml, non_xml_reply, OdooSession};
use pointeuse::reminder::{check_channel, set_interval, ReminderState};
use pointeuse::sync::{claimable, count_status, failed_status, no_counts, resolve_action, ResolveAction};
use pointeuse::text::trim_start_chars;
use pointeuse::xmlwrite::build_method_call;

fn session(employee: Option<i64>) -> OdooSession {
    OdooSession {
        url: "https://acme.odoo.com".to_string(),
        database: "acme".to_string(),
        username: "me".to_string(),
        password: "pw".to_string(),
        uid: 7,
        employee_id: employee,
    }
}

#[test]
fn a_reply_is_xml_when_it_opens_a_tag_after_whitespace() {
    assert!(looks_like_xml("<?xml version=\"1.0\"?><methodResponse/>"));
    assert!(looks_like_xml(" \n\t<methodResponse/>"));
    assert!(!looks_like_xml(""));
    assert!(!looks_like_xml("   "));
    assert!(!looks_like_xml("Bad Gateway"));
    assert!(!looks_like_xml("{\"error\": 1}"));
}

#[test]
fn http_errors_name_the_status_the_endpoint_and_the_body() {
    let e = http_failure("502 Bad Gateway", "https://a.b/xmlrpc/2/object", "oops");
    assert!(matches!(e, AppError::Odoo(_)));
    assert_eq!(e.message(), "HTTP 502 Bad Gateway from https://a.b/xmlrpc/2/object: oops");
    let e = non_xml_reply("https://a.b/xmlrpc/2/common", "<!DOC");
    assert!(matches!(e, AppError::Odoo(_)));
    assert_eq!(e.message(), "Non-XML response from https://a.b/xmlrpc/2/common: <!DOC");
}

#[test]
fn an_edited_line_carries_name_task_project_hours_and_date() {
    let v = line_edit_values(12, 3, "Review", "1.5", "2026-03-02");
    let xml = build_method_call("x", &[v]).unwrap();
    assert!(xml.contains(
        "<struct><member><name>name</name><value><string>Review</string></value></member>\
<member><name>task_id</name><value><int>12</int></value></member>\
<member><name>project_id</name><value><int>3</int></value></member>\
<member><name>unit_amount</name><value><double>1.5</double></value></member>\
<member><name>date</name><value><string>2026-03-02</string></value></member></struct>"
    ));
}

#[test]
fn live_lines_are_found_by_marker_date_and_owner() {
    let with_employee = build_method_call("x", &live_lines_domain(&session(Some(4)), "[ptr:", "2026-03-01")).unwrap();
    assert!(with_employee.contains("<string>name</string></value><value><string>like</string></value><value><string>[ptr:</string>"));
    assert!(with_employee.contains("<string>date</string></value><value><string>&gt;=</string></value><value><string>2026-03-01</string>"));
    assert!(with_employee.contains("<string>employee_id</string></value><value><string>=</string></value><value><int>4</int>"));
    let without = build_method_call("x", &live_lines_domain(&session(None), "[ptr:", "2026-03-01")).unwrap();
    assert!(without.contains("<string>user_id</string></value><value><string>=</string></value><value><int>7</int>"));
}

#[test]
fn an_entry_is_claimable_once_its_backoff_has_passed() {
    // 2026-01-01 00:00:00 UTC
    let t = 1_767_225_600i64;
    assert!(claimable(0, None, t));
    assert!(claimable(1, Some("2026-01-01 00:00:00"), t + 30));
    assert!(!claimable(1, Some("2026-01-01 00:00:00"), t + 29));
    assert!(!claimable(2, Some("2026-01-01 00:00:00"), t + 59));
    assert!(claimable(2, Some("2026-01-01 00:00:00"), t + 60));
    assert!(claimable(3, Some("not a time"), 0));
    assert!(!claimable(10, None, t));
}

#[test]
fn failures_are_permanent_or_retried() {
    assert_eq!(failed_status(true), "rejected");
    assert_eq!(failed_status(false), "failed");
}

#[test]
fn status_counts_fill_by_name() {
    let mut c = no_counts();
    count_status(&mut c, "pending", 3);
    count_status(&mut c, "rejected", 2);
    count_status(&mut c, "archived", 9);
    assert_eq!((c.pending, c.syncing, c.synced, c.failed, c.duplicate, c.rejected), (3, 0, 0, 0, 0, 2));
}

#[test]
fn resolve_actions_are_read_by_name() {
    assert_eq!(resolve_action("skip").unwrap(), ResolveAction::Skip);
    assert_eq!(resolve_action("force").unwrap(), ResolveAction::Force);
    assert_eq!(resolve_action("discard").unwrap(), ResolveAction::Discard);
    let e = resolve_action("retry").unwrap_err();
    assert!(matches!(e, AppError::General(_)));
    assert_eq!(e.message(), "Unknown resolve action: retry");
}

#[test]
fn only_known_notification_channels_are_accepted() {
    assert!(check_channel("reminder_silent_v2").is_ok());
    assert!(check_channel("reminder_normal_v2").is_ok());
    assert!(check_channel("reminder_urgent_v2").is_ok());
    let e = check_channel("loud").unwrap_err();
    assert!(matches!(e, AppError::General(_)));
    assert_eq!(e.message(), "Invalid channel: loud");
}

#[test]
fn a_refused_interval_names_the_accepted_values() {
    let mut s = ReminderState::default();
    let e = set_interval(&mut s, 45).unwrap_err();
    assert_eq!(e.message(), "Invalid reminder interval: 45. Must be one of [0, 5, 10, 15, 30, 60]");
    assert_eq!(s.interval_minutes, 0);
}

#[test]
fn the_prefetch_keeps_today_fresher() {
    assert_eq!(prefetch_max_age("2026-03-02", "2026-03-02"), CACHE_MAX_AGE_TODAY);
    assert_eq!(prefetch_max_age("2026-03-01", "2026-03-02"), PREFETCH_MAX_AGE_PAST);
    assert_eq!(PREFETCH_MAX_AGE_PAST, 300);
}

#[test]
fn leading_whitespace_is_trimmed() {
    let cs: Vec<char> = " \t\n ab c ".chars().collect();
    assert_eq!(trim_start_chars(&cs), "ab c ".chars().collect::<Vec<char>>());
    assert!(trim_start_chars(&[' ', '\n']).is_empty());
}

#[test]
fn a_hosted_server_reply_names_its_database() {
    let one = r#"{"jsonrpc":"2.0","id":1,"result":["acme"]}"#;
    assert_eq!(database_from_reply(one, "whatever"), Some("acme".to_string()));
    let many = r#"{"jsonrpc":"2.0","id":1,"result":["other", 3, "ACME-prod", "acme-test"]}"#;
    assert_eq!(database_from_reply(many, "acme"), Some("ACME-prod".to_string()));
    assert_eq!(database_from_reply(many, "zzz"), Some("other".to_string()));
    assert_eq!(database_from_reply(r#"{"result":[]}"#, "acme"), None);
    assert_eq!(database_from_reply(r#"{"error":{"code":1}}"#, "acme"), None);
    assert_eq!(database_from_reply("<html>", "acme"), None);
    assert_eq!(reply_names(&[Some("a".into()), None, Some("b".into())]), vec!["a".to_string(), "b".to_string()]);
}

#[test]
fn assignee_lists_round_trip_through_json() {
    assert_eq!(user_ids_to_json(&[1, -2, 30]), "[1,-2,30]");
    assert_eq!(user_ids_to_json(&[]), "[]");
    assert_eq!(user_ids_from_json("[1, -2, 30]"), Some(vec![1, -2, 30]));
    assert_eq!(user_ids_from_json("not json"), None);
    assert_eq!(user_ids_from_json(&user_ids_to_json(&[i64::MIN, i64::MAX])), Some(vec![i64::MIN, i64::MAX]));
}

#[test]
fn the_password_is_filed_under_the_app_and_the_user() {
    assert_eq!(credential_key("alice"), ("time-tracker-app".to_string(), "alice".to_string()));
}

#[test]
fn failed_polls_are_counted_until_one_succeeds() {
    assert_eq!(next_net_failures(true, 0), 1);
    assert_eq!(next_net_failures(true, u32::MAX), u32::MAX);
    assert_eq!(next_net_failures(false, 7), 0);
}
