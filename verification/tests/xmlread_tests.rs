use pointeuse::xmlread::{parse_method_response, parse_response_tokens, tokenize, XmlToken};
use pointeuse::xmlrpc::XmlRpcValue;
use pointeuse::xmlwrite::build_method_call;

fn wrap(value: &str) -> String {
    format!("<?xml version=\"1.0\"?><methodResponse><params><param><value>{value}</value></param></params></methodResponse>")
}

#[test]
fn scalar_values_read_back() {
    let v = parse_method_response(&wrap("<boolean>1</boolean>")).unwrap();
    assert_eq!(v.as_bool(), Some(true));
    let v = parse_method_response(&wrap("<boolean>0</boolean>")).unwrap();
    assert_eq!(v.as_bool(), Some(false));
    let v = parse_method_response(&wrap("<i4> -17 </i4>")).unwrap();
    assert_eq!(v.as_i64(), Some(-17));
    let v = parse_method_response(&wrap("<string>a &amp; b &lt;c&gt;</string>")).unwrap();
    assert_eq!(v.as_str(), Some("a & b <c>"));
    let v = parse_method_response(&wrap("bare text")).unwrap();
    assert_eq!(v.as_str(), Some("bare text"));
    let v = parse_method_response(&wrap("<nil/>")).unwrap();
    assert!(matches!(v, XmlRpcValue::Nil));
    let v = parse_method_response(&wrap("")).unwrap();
    assert_eq!(v.as_str(), Some(""));
}

#[test]
fn doubles_truncate_toward_zero_when_read_as_integers() {
    let v = parse_method_response(&wrap("<double>7.9</double>")).unwrap();
    assert_eq!(v.as_i64(), Some(7));
    let v = parse_method_response(&wrap("<double>-2.5e1</double>")).unwrap();
    assert_eq!(v.as_i64(), Some(-25));
}

#[test]
fn malformed_numbers_are_errors() {
    let e = parse_method_response(&wrap("<int>12x</int>")).unwrap_err();
    assert_eq!(e.message(), "Bad int: invalid digit found in string");
    let e = parse_method_response(&wrap("<int></int>")).unwrap_err();
    assert_eq!(e.message(), "Bad int: cannot parse integer from empty string");
    let e = parse_method_response(&wrap("<int>99999999999999999999</int>")).unwrap_err();
    assert_eq!(e.message(), "Bad int: number too large to fit in target type");
    let e = parse_method_response(&wrap("<double>abc</double>")).unwrap_err();
    assert_eq!(e.message(), "Bad double: invalid float literal");
}

#[test]
fn arrays_and_structs_read_back() {
    let xml = wrap(
        "<array><data><value><int>1</int></value><value><string>Proj</string></value></data></array>",
    );
    let v = parse_method_response(&xml).unwrap();
    assert_eq!(v.as_many2one(), Some((1, "Proj".to_string())));
    let xml = wrap(
        "<struct><member><name>id</name><value><int>5</int></value></member>\
         <member><name>id</name><value><int>6</int></value></member>\
         <member><name>name</name><value><string>X</string></value></member></struct>",
    );
    let v = parse_method_response(&xml).unwrap();
    let ms = v.as_struct().unwrap();
    assert_eq!(ms.len(), 2);
    assert_eq!(ms[0].0, "id");
    assert_eq!(ms[0].1.as_i64(), Some(6));
}

#[test]
fn a_fault_that_is_not_a_struct_is_described() {
    let xml = "<methodResponse><fault><value><string>boom \"x\"</string></value></fault></methodResponse>";
    let e = parse_method_response(xml).unwrap_err();
    assert_eq!(e.message(), "XML-RPC fault: String(\"boom \\\"x\\\"\")");
    let xml = "<methodResponse><fault><value><array><data><value><int>3</int></value><value><boolean>1</boolean></value></data></array></value></fault></methodResponse>";
    let e = parse_method_response(xml).unwrap_err();
    assert_eq!(e.message(), "XML-RPC fault: Array([Int(3), Bool(true)])");
}

#[test]
fn a_fault_struct_reports_code_and_string() {
    let xml = "<methodResponse><fault><value><struct>\
               <member><name>faultCode</name><value><int>2</int></value></member>\
               </struct></value></fault></methodResponse>";
    let e = parse_method_response(xml).unwrap_err();
    assert_eq!(e.message(), "XML-RPC fault 2: Unknown fault");
}

#[test]
fn structural_errors_are_named() {
    assert_eq!(parse_method_response("<foo/>").unwrap_err().message(), "No methodResponse found");
    assert_eq!(
        parse_method_response("<methodResponse></methodResponse>").unwrap_err().message(),
        "Empty methodResponse"
    );
    assert_eq!(
        parse_method_response("<methodResponse><params></params></methodResponse>").unwrap_err().message(),
        "No value in params"
    );
    assert_eq!(
        parse_method_response("<methodResponse><params><param><value><int>4").unwrap_err().message(),
        "Unexpected EOF reading text"
    );
}

#[test]
fn tokens_carry_local_names_and_decoded_text() {
    let toks = tokenize("<a:b>x &amp; y</a:b>");
    assert!(matches!(&toks[0], XmlToken::Start(n) if n == "b"));
    assert!(matches!(&toks[1], XmlToken::Text(t) if t == "x &amp; y"));
    assert!(matches!(&toks[2], XmlToken::End(n) if n == "b"));
    assert!(matches!(toks.last(), Some(XmlToken::Eof)));
}

#[test]
fn parsing_tokens_directly_gives_the_same_value() {
    let toks = vec![
        XmlToken::Start("methodResponse".to_string()),
        XmlToken::Start("params".to_string()),
        XmlToken::Start("param".to_string()),
        XmlToken::Start("value".to_string()),
        XmlToken::Start("int".to_string()),
        XmlToken::Text("42".to_string()),
        XmlToken::End("int".to_string()),
        XmlToken::Eof,
    ];
    assert_eq!(parse_response_tokens(&toks).unwrap().as_i64(), Some(42));
    let toks = vec![XmlToken::Fail("syntax error".to_string())];
    assert_eq!(parse_response_tokens(&toks).unwrap_err().message(), "syntax error");
}

#[test]
fn a_written_call_escapes_its_text() {
    let xml = build_method_call("m", &[XmlRpcValue::String("a<b & 'c'".to_string()), XmlRpcValue::Int(-3)]).unwrap();
    assert_eq!(
        xml,
        "<methodCall><methodName>m</methodName><params><param><value><string>a&lt;b &amp; &apos;c&apos;</string></value></param><param><value><int>-3</int></value></param></params></methodCall>"
    );
}
