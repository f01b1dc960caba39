use pointeuse::attendance::{
    check_in_allowed, check_out_target, observe_status, require_employee, status_after_check_in,
    status_after_check_out, status_from_records, AttendanceStatus,
};
use pointeuse::models::{
    employee_from_records, named_ids, parse_projects, task_state_from_records, users_from_records, LineFields,
    OdooEmployee, OdooProject, TaskFields,
};
use pointeuse::xmlrpc::XmlRpcValue;

fn s(x: &str) -> XmlRpcValue {
    XmlRpcValue::String(x.to_string())
}

fn rec(fields: Vec<(&str, XmlRpcValue)>) -> XmlRpcValue {
    XmlRpcValue::Struct(fields.into_iter().map(|(k, v)| (k.to_string(), v)).collect())
}

fn pair(id: i64, name: &str) -> XmlRpcValue {
    XmlRpcValue::Array(vec![XmlRpcValue::Int(id), s(name)])
}

#[test]
fn projects_read_from_records() {
    let p = OdooProject::try_from(&rec(vec![("id", XmlRpcValue::Int(3)), ("name", s("Web"))])).unwrap();
    assert_eq!((p.id, p.name.as_str()), (3, "Web"));
    let p = OdooProject::try_from(&rec(vec![("id", XmlRpcValue::Double("4.0".to_string())), ("name", XmlRpcValue::Bool(false))])).unwrap();
    assert_eq!((p.id, p.name.as_str()), (4, ""));
    let e = OdooProject::try_from(&rec(vec![("name", s("x"))])).unwrap_err();
    assert_eq!(e.message(), "Missing or invalid int field 'id'");
    let e = OdooEmployee::try_from(&XmlRpcValue::Nil).unwrap_err();
    assert_eq!(e.message(), "Expected struct for OdooEmployee");
}

#[test]
fn unreadable_records_are_skipped() {
    let records = vec![
        rec(vec![("id", XmlRpcValue::Int(1)), ("name", s("A"))]),
        XmlRpcValue::Nil,
        rec(vec![("id", XmlRpcValue::Int(2)), ("name", s("B"))]),
    ];
    let ps = parse_projects(&records);
    assert_eq!(ps.iter().map(|p| p.id).collect::<Vec<_>>(), vec![1, 2]);
}

#[test]
fn a_task_reads_its_fields() {
    let t = TaskFields::try_from(&rec(vec![
        ("id", XmlRpcValue::Int(42)),
        ("name", s("Fix")),
        ("project_id", pair(3, "Web")),
        ("stage_id", pair(8, "In Progress")),
        ("state", s("01_in_progress")),
        ("description", XmlRpcValue::Bool(false)),
        ("user_ids", XmlRpcValue::Array(vec![XmlRpcValue::Int(7), s("x"), XmlRpcValue::Int(9)])),
        ("parent_id", XmlRpcValue::Bool(false)),
        ("color", XmlRpcValue::Int(4)),
    ]))
    .unwrap();
    assert_eq!(t.id, 42);
    assert_eq!(t.project_id, Some((3, "Web".to_string())));
    assert_eq!(t.stage_name.as_deref(), Some("In Progress"));
    assert_eq!(t.description, None);
    assert_eq!(t.user_ids, Some(vec![7, 9]));
    assert_eq!(t.parent_id, None);
    assert_eq!(t.color, Some(4));
}

#[test]
fn a_task_stage_name_falls_back_to_text_fields() {
    let t = TaskFields::try_from(&rec(vec![("id", XmlRpcValue::Int(1)), ("stage_name", s("Done"))])).unwrap();
    assert_eq!(t.stage_name.as_deref(), Some("Done"));
    assert_eq!(t.user_ids, None);
    let t = TaskFields::try_from(&rec(vec![("id", XmlRpcValue::Int(1)), ("user_ids", XmlRpcValue::Array(vec![]))])).unwrap();
    assert_eq!(t.user_ids, None);
    assert_eq!(TaskFields::try_from(&s("x")).unwrap_err().message(), "Expected struct for OdooTask");
}

#[test]
fn a_timesheet_line_reads_its_fields() {
    let l = LineFields::try_from(&rec(vec![
        ("id", XmlRpcValue::Int(5)),
        ("name", s("Review")),
        ("task_id", pair(42, "Fix")),
        ("project_id", XmlRpcValue::Bool(false)),
        ("date", s("2026-03-25")),
    ]))
    .unwrap();
    assert_eq!(l.id, 5);
    assert_eq!(l.task_id, Some((42, "Fix".to_string())));
    assert_eq!(l.project_id, None);
    assert_eq!(l.date, "2026-03-25");
}

#[test]
fn the_employee_id_must_be_an_integer() {
    assert_eq!(employee_from_records(&[rec(vec![("id", XmlRpcValue::Int(4))])]), Some(4));
    assert_eq!(employee_from_records(&[rec(vec![("id", XmlRpcValue::Double("4".to_string()))])]), None);
    assert_eq!(employee_from_records(&[]), None);
}

#[test]
fn named_ids_keep_positive_ids() {
    let rs = vec![
        rec(vec![("id", XmlRpcValue::Int(2)), ("name", s("B"))]),
        rec(vec![("id", XmlRpcValue::Int(0)), ("name", s("zero"))]),
        rec(vec![("id", XmlRpcValue::Int(3))]),
    ];
    assert_eq!(named_ids(&rs), vec![(2, "B".to_string()), (3, String::new())]);
}

#[test]
fn users_are_sorted_by_name_ignoring_case_and_stably() {
    let rs = vec![
        rec(vec![("id", XmlRpcValue::Int(1)), ("name", s("bob"))]),
        rec(vec![("id", XmlRpcValue::Int(2)), ("name", s("Alice"))]),
        rec(vec![("id", XmlRpcValue::Int(3)), ("name", s("BOB"))]),
        rec(vec![("id", XmlRpcValue::Int(4)), ("name", s("carol"))]),
    ];
    let us = users_from_records(&rs);
    assert_eq!(us.iter().map(|u| u.0).collect::<Vec<_>>(), vec![2, 1, 3, 4]);
}

#[test]
fn a_task_state_is_read_from_the_first_record() {
    let (stage, state, kanban) =
        task_state_from_records(&[rec(vec![("stage_id", pair(1, "New")), ("state", s("1_done"))])]);
    assert_eq!(stage, Some((1, "New".to_string())));
    assert_eq!(state.as_deref(), Some("1_done"));
    assert_eq!(kanban, None);
    assert_eq!(task_state_from_records(&[]), (None, None, None));
}

#[test]
fn attendance_status_from_the_open_record() {
    let st = status_from_records(&[]).unwrap();
    assert!(!st.is_checked_in);
    let st = status_from_records(&[rec(vec![("id", XmlRpcValue::Int(8)), ("check_in", s("2026-03-25 08:00:00"))])]).unwrap();
    assert!(st.is_checked_in);
    assert_eq!(st.attendance_id, Some(8));
    assert_eq!(st.check_in_time.as_deref(), Some("2026-03-25 08:00:00"));
    assert_eq!(status_from_records(&[rec(vec![])]).unwrap_err().message(), "Missing id in attendance record");
    assert_eq!(status_from_records(&[XmlRpcValue::Nil]).unwrap_err().message(), "Expected struct for attendance record");
}

#[test]
fn check_in_and_out_preconditions() {
    assert_eq!(require_employee(Some(3)).unwrap(), 3);
    assert_eq!(require_employee(None).unwrap_err().message(), "No employee record linked to this user");
    let out = status_after_check_out();
    assert!(check_in_allowed(&out).is_ok());
    assert_eq!(check_out_target(&out).unwrap_err().message(), "Not checked in");
    let inn = status_after_check_in(5, "t".to_string());
    assert_eq!(check_in_allowed(&inn).unwrap_err().message(), "Already checked in");
    assert_eq!(check_out_target(&inn).unwrap(), 5);
}

#[test]
fn a_status_seen_twice_is_reported_once() {
    let mut last: Option<AttendanceStatus> = None;
    let st = status_after_check_in(5, "t".to_string());
    let c = observe_status(&mut last, &st);
    assert!(c.changed && !c.stop_timer);
    let c = observe_status(&mut last, &st);
    assert!(!c.changed);
    let c = observe_status(&mut last, &status_after_check_out());
    assert!(c.changed && c.stop_timer);
}
