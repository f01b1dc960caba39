use pointeuse::xmlread::parse_method_response;
use pointeuse::xmlrpc::XmlRpcValue;
use pointeuse::xmlwrite::build_method_call;

#[test]
fn test_build_simple_call() {
    let xml = build_method_call(
        "authenticate",
        &[
            XmlRpcValue::String("mydb".into()),
            XmlRpcValue::String("admin".into()),
            XmlRpcValue::String("secret".into()),
            XmlRpcValue::Struct(Vec::new()),
        ],
    )
    .unwrap();
    assert!(xml.contains("<methodCall>"));
    assert!(xml.contains("<methodName>authenticate</methodName>"));
}

#[test]
fn test_parse_int_response() {
    let xml = r#"<?xml version="1.0"?>
<methodResponse><params><param><value><int>42</int></value></param></params></methodResponse>"#;
    let val = parse_method_response(xml).unwrap();
    assert_eq!(val.as_i64(), Some(42));
}

#[test]
fn test_parse_fault() {
    let xml = r#"<?xml version="1.0"?>
<methodResponse><fault><value><struct>
<member><name>faultCode</name><value><int>1</int></value></member>
<member><name>faultString</name><value><string>Access denied</string></value></member>
</struct></value></fault></methodResponse>"#;
    let err = parse_method_response(xml).unwrap_err();
    let msg = err.message();
    assert!(msg.contains("Access denied"), "got: {msg}");
}

#[test]
fn test_parse_boolean_false_as_empty_many2one() {
    let val = XmlRpcValue::Bool(false);
    assert_eq!(val.as_many2one(), None);
}

/// The `<value>…</value>` part of a one-parameter call.
fn written_value(v: XmlRpcValue) -> String {
    let xml = build_method_call("x", &[v]).unwrap();
    let start = xml.find("<param>").unwrap() + "<param>".len();
    let end = xml.rfind("</param>").unwrap();
    xml[start..end].to_string()
}

#[test]
fn a_written_value_reads_back() {
    let v = XmlRpcValue::Struct(vec![
        ("id".to_string(), XmlRpcValue::Int(-42)),
        ("done".to_string(), XmlRpcValue::Bool(true)),
        ("hours".to_string(), XmlRpcValue::Double("1.5".to_string())),
        ("name".to_string(), XmlRpcValue::String("R&D <team> \"A\"".to_string())),
        ("empty".to_string(), XmlRpcValue::String(String::new())),
        ("none".to_string(), XmlRpcValue::Nil),
        ("ids".to_string(), XmlRpcValue::Array(vec![XmlRpcValue::Int(1), XmlRpcValue::Array(vec![])])),
    ]);
    let written = written_value(v);
    let response = format!("<methodResponse><params><param>{written}</param></params></methodResponse>");
    let back = parse_method_response(&response).unwrap();
    assert_eq!(written_value(back), written);
}
