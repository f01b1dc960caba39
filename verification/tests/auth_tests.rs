use pointeuse::auth::{
    auth_status, choose_database, credentials_not_saved, database_fallback, database_names, extract_subdomain,
    login_failed, login_response, normalize_url, subdomain_of_host,
};
use pointeuse::error::AppError;
use pointeuse::odoo::OdooSession;
use pointeuse::xmlrpc::XmlRpcValue;

#[test]
fn the_subdomain_is_the_first_label_of_the_host() {
    assert_eq!(extract_subdomain("https://mycompany.odoo.com/web"), "mycompany");
    assert_eq!(extract_subdomain("http://localhost:8069"), "");
    assert_eq!(extract_subdomain("not a url"), "");
    assert_eq!(subdomain_of_host(Some("a.b.c")), "a");
    assert_eq!(subdomain_of_host(None), "");
}

#[test]
fn a_database_is_picked_from_the_list() {
    let dbs = vec!["prod".to_string(), "MyCompany-main".to_string(), "mycompany-test".to_string()];
    assert_eq!(choose_database(&dbs, "mycompany").as_deref(), Some("MyCompany-main"));
    assert_eq!(choose_database(&dbs, "other").as_deref(), Some("prod"));
    assert_eq!(choose_database(&dbs[..1], "zzz").as_deref(), Some("prod"));
    assert_eq!(choose_database(&[], "x"), None);
}

#[test]
fn without_a_list_the_subdomain_is_the_database() {
    assert_eq!(database_fallback("acme").unwrap(), "acme");
    let e = database_fallback("").unwrap_err();
    assert!(matches!(e, AppError::Auth(_)));
    assert_eq!(e.message(), "Could not detect database. Please enter it manually.");
}

#[test]
fn db_list_replies_list_their_strings() {
    let v = XmlRpcValue::Array(vec![XmlRpcValue::String("a".into()), XmlRpcValue::Int(1), XmlRpcValue::String("b".into())]);
    assert_eq!(database_names(&v), vec!["a".to_string(), "b".to_string()]);
    assert!(database_names(&XmlRpcValue::Bool(false)).is_empty());
}

#[test]
fn urls_lose_their_trailing_slashes() {
    assert_eq!(normalize_url("https://x.odoo.com///"), "https://x.odoo.com");
    assert_eq!(normalize_url("https://x.odoo.com"), "https://x.odoo.com");
}

#[test]
fn failures_are_reported_with_their_cause() {
    let e = login_failed(&AppError::Odoo("HTTP 500".into()));
    assert!(matches!(e, AppError::Auth(_)));
    assert_eq!(e.message(), "Login failed: HTTP 500");
    let e = credentials_not_saved(&AppError::Keyring("locked".into()));
    assert!(matches!(e, AppError::Keyring(_)));
    assert_eq!(e.message(), "Failed to save credentials: locked");
}

#[test]
fn the_status_reflects_the_session() {
    let s = OdooSession {
        url: "https://a".into(),
        database: "d".into(),
        username: "me".into(),
        password: "p".into(),
        uid: 3,
        employee_id: None,
    };
    let st = auth_status(Some(&s));
    assert!(st.authenticated);
    assert_eq!(st.username.as_deref(), Some("me"));
    assert_eq!(st.url.as_deref(), Some("https://a"));
    let st = auth_status(None);
    assert!(!st.authenticated && st.username.is_none() && st.url.is_none());
    let r = login_response(&s);
    assert_eq!((r.uid, r.username.as_str()), (3, "me"));
}
