//! Writing `<methodCall>` documents through `quick_xml::Writer`.
use vstd::prelude::*;

use quick_xml::events::{BytesEnd, BytesStart, BytesText, Event};
use quick_xml::Writer;
use std::io::Cursor;

use crate::error::AppError;
use crate::text::{from_chars, i64_text, int_text, to_chars};
use crate::xmlrpc::{Val, XmlRpcValue, deep_items, deep_members, lemma_deep_items, lemma_deep_members};

verus! {

#[verifier::external_type_specification]
#[verifier::external_body]
#[verifier::reject_recursive_types(W)]
pub struct ExXmlWriter<W>(Writer<W>);

#[verifier::external_type_specification]
#[verifier::external_body]
#[verifier::reject_recursive_types(T)]
pub struct ExCursor<T>(Cursor<T>);

/// The text a writer has written so far (it holds it as UTF-8 bytes).
pub uninterp spec fn written_text(w: Writer<Cursor<Vec<u8>>>) -> Seq<char>;

/// The writer's bytes are the UTF-8 encoding of `written_text`.
pub uninterp spec fn holds_text(w: Writer<Cursor<Vec<u8>>>) -> bool;

// ── Escaping ─────────────────────────────────────────────────────────

/// How `quick_xml::escape::escape` (used by `BytesText::new`) writes one character.
pub open spec fn escape_char(c: char) -> Seq<char> {
    if c == '<' {
        seq!['&', 'l', 't', ';']
    } else if c == '>' {
        seq!['&', 'g', 't', ';']
    } else if c == '&' {
        seq!['&', 'a', 'm', 'p', ';']
    } else if c == '\'' {
        seq!['&', 'a', 'p', 'o', 's', ';']
    } else if c == '"' {
        seq!['&', 'q', 'u', 'o', 't', ';']
    } else {
        seq![c]
    }
}

/// `quick_xml::escape::escape`: `<`, `>`, `&`, `'` and `"` become entity references.
pub open spec fn xml_escape(s: Seq<char>) -> Seq<char>
    decreases s.len(),
{
    if s.len() == 0 {
        Seq::empty()
    } else {
        xml_escape(s.drop_last()) + escape_char(s.last())
    }
}

pub open spec fn open_tag(tag: Seq<char>) -> Seq<char> {
    seq!['<'] + tag + seq!['>']
}

pub open spec fn close_tag(tag: Seq<char>) -> Seq<char> {
    seq!['<', '/'] + tag + seq!['>']
}

pub open spec fn empty_tag(tag: Seq<char>) -> Seq<char> {
    seq!['<'] + tag + seq!['/', '>']
}

// ── Writer wrappers ──────────────────────────────────────────────────

/// `Writer::new(Cursor::new(Vec::new()))`: nothing written yet.
#[verifier::external_body]
fn xml_writer() -> (w: Writer<Cursor<Vec<u8>>>)
    ensures
        written_text(w) == Seq::<char>::empty(),
        holds_text(w),
{
    Writer::new(Cursor::new(Vec::new()))
}

/// `write_event(Event::Start(BytesStart::new(tag)))`: a writer without
/// indentation writes `<tag>`. `write_event` fails only when the inner writer
/// does, and writing into the `Cursor`'s vector appends and does not fail (as
/// for the other events below).
#[verifier::external_body]
fn xml_start(w: &mut Writer<Cursor<Vec<u8>>>, tag: &str) -> (r: Result<(), String>)
    ensures
        r is Ok,
        written_text(*final(w)) == written_text(*old(w)) + open_tag(tag@),
        holds_text(*old(w)) ==> holds_text(*final(w)),
{
    w.write_event(Event::Start(BytesStart::new(tag))).map_err(|e| e.to_string())
}

/// `write_event(Event::End(BytesEnd::new(tag)))`: writes `</tag>`.
#[verifier::external_body]
fn xml_end(w: &mut Writer<Cursor<Vec<u8>>>, tag: &str) -> (r: Result<(), String>)
    ensures
        r is Ok,
        written_text(*final(w)) == written_text(*old(w)) + close_tag(tag@),
        holds_text(*old(w)) ==> holds_text(*final(w)),
{
    w.write_event(Event::End(BytesEnd::new(tag))).map_err(|e| e.to_string())
}

/// `write_event(Event::Empty(BytesStart::new(tag)))`: writes `<tag/>`.
#[verifier::external_body]
fn xml_empty(w: &mut Writer<Cursor<Vec<u8>>>, tag: &str) -> (r: Result<(), String>)
    ensures
        r is Ok,
        written_text(*final(w)) == written_text(*old(w)) + empty_tag(tag@),
        holds_text(*old(w)) ==> holds_text(*final(w)),
{
    w.write_event(Event::Empty(BytesStart::new(tag))).map_err(|e| e.to_string())
}

/// `write_event(Event::Text(BytesText::new(text)))`: writes the text escaped.
#[verifier::external_body]
fn xml_text(w: &mut Writer<Cursor<Vec<u8>>>, text: &str) -> (r: Result<(), String>)
    ensures
        r is Ok,
        written_text(*final(w)) == written_text(*old(w)) + xml_escape(text@),
        holds_text(*old(w)) ==> holds_text(*final(w)),
{
    w.write_event(Event::Text(BytesText::new(text))).map_err(|e| e.to_string())
}

/// `String::from_utf8(w.into_inner().into_inner())`: the bytes are the
/// UTF-8 encoding of what was written, so the conversion succeeds.
#[verifier::external_body]
fn xml_finish(w: Writer<Cursor<Vec<u8>>>) -> (r: Result<String, String>)
    requires
        holds_text(w),
    ensures
        r is Ok,
        r->Ok_0@ == written_text(w),
{
    String::from_utf8(w.into_inner().into_inner()).map_err(|e| e.to_string())
}

} // verus!

verus! {

// ── The document ─────────────────────────────────────────────────────

/// How a value is written: `<value>`, its typed element, `</value>`.
pub open spec fn value_xml(v: Val) -> Seq<char>
    decreases v,
{
    open_tag("value"@) + match v {
        Val::Int(i) => open_tag("int"@) + xml_escape(int_text(i as int)) + close_tag("int"@),
        Val::Bool(b) => open_tag("boolean"@) + xml_escape(if b { seq!['1'] } else { seq!['0'] }) + close_tag("boolean"@),
        Val::Double(t) => open_tag("double"@) + xml_escape(t) + close_tag("double"@),
        Val::Str(s) => open_tag("string"@) + xml_escape(s) + close_tag("string"@),
        Val::Array(items) => open_tag("array"@) + open_tag("data"@) + items_xml(items) + close_tag("data"@)
            + close_tag("array"@),
        Val::Struct(ms) => open_tag("struct"@) + members_xml(ms) + close_tag("struct"@),
        Val::Nil => empty_tag("nil"@),
    } + close_tag("value"@)
}

pub open spec fn items_xml(items: Seq<Val>) -> Seq<char>
    decreases items,
{
    if items.len() == 0 {
        Seq::empty()
    } else {
        items_xml(items.drop_last()) + value_xml(items.last())
    }
}

pub open spec fn member_xml(name: Seq<char>, v: Val) -> Seq<char> {
    open_tag("member"@) + open_tag("name"@) + xml_escape(name) + close_tag("name"@) + value_xml(v) + close_tag(
        "member"@,
    )
}

pub open spec fn members_xml(ms: Seq<(Seq<char>, Val)>) -> Seq<char>
    decreases ms,
{
    if ms.len() == 0 {
        Seq::empty()
    } else {
        members_xml(ms.drop_last()) + open_tag("member"@) + open_tag("name"@) + xml_escape(ms.last().0) + close_tag(
            "name"@,
        ) + value_xml(ms.last().1) + close_tag("member"@)
    }
}

pub open spec fn params_xml(params: Seq<Val>) -> Seq<char>
    decreases params.len(),
{
    if params.len() == 0 {
        Seq::empty()
    } else {
        params_xml(params.drop_last()) + open_tag("param"@) + value_xml(params.last()) + close_tag("param"@)
    }
}

/// The `<methodCall>` document for `method` and `params`.
pub open spec fn method_call_xml(method: Seq<char>, params: Seq<Val>) -> Seq<char> {
    open_tag("methodCall"@) + open_tag("methodName"@) + xml_escape(method) + close_tag("methodName"@) + open_tag(
        "params"@,
    ) + params_xml(params) + close_tag("params"@) + close_tag("methodCall"@)
}

/// Write one value.
pub fn write_value(w: &mut Writer<Cursor<Vec<u8>>>, val: &XmlRpcValue) -> (r: Result<(), String>)
    ensures
        r is Ok,
        written_text(*final(w)) == written_text(*old(w)) + value_xml(val.deep()),
        holds_text(*old(w)) ==> holds_text(*final(w)),
    decreases val,
{
    let ghost w0 = *w;
    xml_start(w, "value")?;
    let ghost w1 = *w;
    match val {
        XmlRpcValue::Int(i) => {
            xml_start(w, "int")?;
            let t = from_chars(i64_text(*i).as_slice());
            xml_text(w, t.as_str())?;
            xml_end(w, "int")?;
        },
        XmlRpcValue::Bool(b) => {
            xml_start(w, "boolean")?;
            let t = if *b { from_chars(&['1']) } else { from_chars(&['0']) };
            assert(t@ == (if *b { seq!['1'] } else { seq!['0'] }));
            xml_text(w, t.as_str())?;
            xml_end(w, "boolean")?;
        },
        XmlRpcValue::Double(d) => {
            xml_start(w, "double")?;
            xml_text(w, d.as_str())?;
            xml_end(w, "double")?;
        },
        XmlRpcValue::String(s) => {
            xml_start(w, "string")?;
            xml_text(w, s.as_str())?;
            xml_end(w, "string")?;
        },
        XmlRpcValue::Array(arr) => {
            xml_start(w, "array")?;
            xml_start(w, "data")?;
            let ghost base = written_text(*w);
            let ghost held = holds_text(*w);
            let mut i: usize = 0;
            while i < arr.len()
                invariant
                    *val == XmlRpcValue::Array(*arr),
                    i <= arr@.len(),
                    written_text(*w) == base + items_xml(deep_items(arr@.take(i as int))),
                    held ==> holds_text(*w),
                decreases arr@.len() - i,
            {
                proof {
                    broadcast use vstd::std_specs::vec::axiom_vec_decreases_to_view, vstd::seq::axiom_seq_index_decreases;
                    assert(decreases_to!(*val => (*val)->Array_0));
                    assert(decreases_to!(*arr => arr@));
                    assert(decreases_to!(arr@ => arr@[i as int]));
                }
                write_value(w, &arr[i])?;
                proof {
                    let t = arr@.take(i + 1);
                    assert(t.drop_last() == arr@.take(i as int));
                    assert(deep_items(t).drop_last() == deep_items(t.drop_last()));
                    assert(deep_items(t).last() == arr@[i as int].deep());
                }
                i += 1;
            }
            assert(arr@.take(arr@.len() as int) == arr@);
            xml_end(w, "data")?;
            xml_end(w, "array")?;
        },
        XmlRpcValue::Struct(map) => {
            xml_start(w, "struct")?;
            let ghost base = written_text(*w);
            let ghost held = holds_text(*w);
            let mut i: usize = 0;
            while i < map.len()
                invariant
                    *val == XmlRpcValue::Struct(*map),
                    i <= map@.len(),
                    written_text(*w) == base + members_xml(deep_members(map@.take(i as int))),
                    held ==> holds_text(*w),
                decreases map@.len() - i,
            {
                proof {
                    broadcast use vstd::std_specs::vec::axiom_vec_decreases_to_view, vstd::seq::axiom_seq_index_decreases;
                    assert(decreases_to!(*val => (*val)->Struct_0));
                    assert(decreases_to!(*map => map@));
                    assert(decreases_to!(map@ => map@[i as int]));
                    assert(decreases_to!(map@[i as int] => map@[i as int].1));
                }
                let ghost before = written_text(*w);
                xml_start(w, "member")?;
                xml_start(w, "name")?;
                xml_text(w, map[i].0.as_str())?;
                xml_end(w, "name")?;
                write_value(w, &map[i].1)?;
                xml_end(w, "member")?;
                proof {
                    let t = map@.take(i + 1);
                    assert(t.drop_last() == map@.take(i as int));
                    assert(deep_members(t).drop_last() == deep_members(t.drop_last()));
                    assert(deep_members(t).last() == (map@[i as int].0@, map@[i as int].1.deep()));
                    assert(written_text(*w) =~= before + member_xml(map@[i as int].0@, map@[i as int].1.deep()));
                }
                i += 1;
            }
            assert(map@.take(map@.len() as int) == map@);
            xml_end(w, "struct")?;
        },
        XmlRpcValue::Nil => {
            xml_empty(w, "nil")?;
        },
    }
    xml_end(w, "value")?;
    assert(written_text(*w) =~= written_text(w0) + value_xml(val.deep()));
    Ok(())
}

/// The error a failed write turns into.
fn write_error(msg: String) -> (e: AppError)
    ensures
        e is Odoo,
        e.text() == "XML write error: "@ + msg@,
{
    let mut t = to_chars("XML write error: ");
    let m = to_chars(msg.as_str());
    let mut i: usize = 0;
    while i < m.len()
        invariant
            i <= m@.len(),
            m@ == msg@,
            t@ == "XML write error: "@ + m@.take(i as int),
        decreases m@.len() - i,
    {
        t.push(m[i]);
        proof {
            assert(m@.take(i + 1) =~= m@.take(i as int).push(m@[i as int]));
        }
        i += 1;
    }
    assert(m@.take(m@.len() as int) =~= m@);
    AppError::Odoo(from_chars(t.as_slice()))
}

fn build_inner(w: &mut Writer<Cursor<Vec<u8>>>, method: &str, params: &[XmlRpcValue]) -> (r: Result<(), String>)
    ensures
        r is Ok,
        written_text(*final(w)) == written_text(*old(w)) + method_call_xml(method@, deep_items(params@)),
        holds_text(*old(w)) ==> holds_text(*final(w)),
{
    let ghost w0 = *w;
    xml_start(w, "methodCall")?;
    xml_start(w, "methodName")?;
    xml_text(w, method)?;
    xml_end(w, "methodName")?;
    xml_start(w, "params")?;
    let ghost base = written_text(*w);
    let ghost held = holds_text(w0) ==> holds_text(*w);
    let mut i: usize = 0;
    while i < params.len()
        invariant
            i <= params@.len(),
            written_text(*w) == base + params_xml(deep_items(params@.take(i as int))),
            held,
            held ==> (holds_text(w0) ==> holds_text(*w)),
        decreases params@.len() - i,
    {
        xml_start(w, "param")?;
        write_value(w, &params[i])?;
        xml_end(w, "param")?;
        proof {
            let t = params@.take(i + 1);
            assert(t.drop_last() == params@.take(i as int));
            assert(deep_items(t).drop_last() == deep_items(t.drop_last()));
            assert(deep_items(t).last() == params@[i as int].deep());
        }
        i += 1;
    }
    assert(params@.take(params@.len() as int) == params@);
    xml_end(w, "params")?;
    xml_end(w, "methodCall")?;
    assert(written_text(*w) =~= written_text(w0) + method_call_xml(method@, deep_items(params@)));
    Ok(())
}

/// The `<methodCall>` document for `method` and `params`. Writing into the
/// in-memory buffer does not fail, so the document is always built.
pub fn build_method_call(method: &str, params: &[XmlRpcValue]) -> (r: Result<String, AppError>)
    ensures
        r is Ok,
        r matches Ok(s) ==> s@ == method_call_xml(method@, deep_items(params@)),
{
    let mut w = xml_writer();
    match build_inner(&mut w, method, params) {
        Ok(()) => {},
        Err(e) => {
            return Err(write_error(e));
        },
    }
    match xml_finish(w) {
        Ok(s) => Ok(s),
        Err(e) => Err(AppError::Odoo(e)),
    }
}

} // verus!
