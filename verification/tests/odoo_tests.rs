use pointeuse::odoo::{
    all_tasks_domain, authenticate_params, created_id, day_attendance_domain, endpoint_url, execute_kw_params,
    line_values, my_tasks_domain, search_read_kwargs, search_read_records, search_tasks_domain, task_fields,
    uid_from_reply, write_succeeded, OdooSession,
};
use pointeuse::xmlrpc::XmlRpcValue;
use pointeuse::xmlwrite::build_method_call;

fn session(employee: Option<i64>) -> OdooSession {
    OdooSession {
        url: "https://acme.odoo.com".to_string(),
        database: "acme".to_string(),
        username: "me".to_string(),
        password: "pw".to_string(),
        uid: 7,
        employee_id: employee,
    }
}

fn call_xml(params: &[XmlRpcValue]) -> String {
    build_method_call("x", params).unwrap()
}

#[test]
fn endpoints_drop_trailing_slashes() {
    assert_eq!(endpoint_url("https://a.b//", "/xmlrpc/2/common"), "https://a.b/xmlrpc/2/common");
    assert_eq!(endpoint_url("https://a.b", "/xmlrpc/2/object"), "https://a.b/xmlrpc/2/object");
}

#[test]
fn authenticate_sends_database_login_password_and_an_empty_struct() {
    let ps = authenticate_params("db", "u", "p");
    assert_eq!(ps.len(), 4);
    assert_eq!(ps[0].as_str(), Some("db"));
    assert_eq!(ps[2].as_str(), Some("p"));
    assert_eq!(ps[3].as_struct().map(|m| m.len()), Some(0));
}

#[test]
fn a_uid_must_be_positive() {
    assert_eq!(uid_from_reply(&XmlRpcValue::Int(12)).unwrap(), 12);
    let e = uid_from_reply(&XmlRpcValue::Bool(false)).unwrap_err();
    assert!(matches!(e, pointeuse::error::AppError::Auth(_)));
    assert_eq!(e.message(), "Authentication failed — invalid uid returned");
    let e = uid_from_reply(&XmlRpcValue::String("x".to_string())).unwrap_err();
    assert_eq!(e.message(), "Authentication failed — check your credentials");
}

#[test]
fn execute_kw_wraps_arguments_in_order() {
    let ps = execute_kw_params(&session(None), "project.task", "write", vec![XmlRpcValue::Int(1)], None);
    let xml = call_xml(&ps);
    assert!(xml.contains("<param><value><string>acme</string></value></param><param><value><int>7</int></value></param><param><value><string>pw</string></value></param><param><value><string>project.task</string></value></param><param><value><string>write</string></value></param><param><value><array><data><value><int>1</int></value></data></array></value></param><param><value><struct></struct></value></param>"));
}

#[test]
fn search_read_asks_for_fields_and_limit() {
    let kw = search_read_kwargs(&["id".to_string(), "name".to_string()], Some(80));
    let xml = call_xml(&[kw]);
    assert!(xml.contains("<member><name>fields</name><value><array><data><value><string>id</string></value><value><string>name</string></value></data></array></value></member><member><name>limit</name><value><int>80</int></value></member>"));
    let kw = search_read_kwargs(&[], None);
    assert_eq!(kw.as_struct().map(|m| m.len()), Some(1));
}

#[test]
fn search_read_replies_read_as_records() {
    assert_eq!(search_read_records(XmlRpcValue::Array(vec![XmlRpcValue::Nil])).unwrap().len(), 1);
    assert_eq!(search_read_records(XmlRpcValue::Bool(false)).unwrap().len(), 0);
    let e = search_read_records(XmlRpcValue::Int(3)).unwrap_err();
    assert_eq!(e.message(), "Unexpected search_read result: Int(3)");
}

#[test]
fn create_and_write_replies() {
    assert_eq!(created_id(&XmlRpcValue::Int(55)).unwrap(), 55);
    assert_eq!(created_id(&XmlRpcValue::Nil).unwrap_err().message(), "create did not return an id: Nil");
    assert!(write_succeeded(&XmlRpcValue::Bool(true)));
    assert!(write_succeeded(&XmlRpcValue::Int(1)));
    assert!(!write_succeeded(&XmlRpcValue::Nil));
}

#[test]
fn task_domains() {
    assert_eq!(search_tasks_domain("", None).len(), 0);
    let d = search_tasks_domain("bug", Some(4));
    assert_eq!(call_xml(&d), "<methodCall><methodName>x</methodName><params><param><value><array><data><value><string>name</string></value><value><string>ilike</string></value><value><string>bug</string></value></data></array></value></param><param><value><array><data><value><string>project_id</string></value><value><string>=</string></value><value><int>4</int></value></data></array></value></param></params></methodCall>");
    assert_eq!(all_tasks_domain(&[], &[]).len(), 1);
    assert_eq!(all_tasks_domain(&[1, 2], &[3]).len(), 3);
    let d = my_tasks_domain(9);
    assert!(call_xml(&d).contains("<string>not in</string></value><value><array><data><value><string>1_done</string></value><value><string>1_canceled</string></value></data></array>"));
    assert_eq!(task_fields().len(), 13);
}

#[test]
fn attendance_day_domain_spans_the_whole_day() {
    let xml = call_xml(&day_attendance_domain(3, "2026-03-25"));
    assert!(xml.contains("<string>2026-03-25 00:00:00</string>"));
    assert!(xml.contains("<string>2026-03-25 23:59:59</string>"));
}

#[test]
fn timesheet_lines_name_the_employee_when_known() {
    let v = line_values(&session(Some(11)), 1, 2, "Work", "1.5", "2026-03-25");
    let ms = v.as_struct().unwrap();
    assert_eq!(ms.len(), 6);
    assert_eq!(ms[5].0, "employee_id");
    assert_eq!(ms[3].1.as_i64(), Some(1));
    let v = line_values(&session(None), 1, 2, "Work", "1.5", "2026-03-25");
    assert_eq!(v.as_struct().unwrap().len(), 5);
}
