//! Reading `<methodResponse>` documents: `quick_xml::Reader` turns the text
//! into tokens, and a recursive-descent reader turns the tokens into a value
//! or a fault.
use vstd::prelude::*;

use quick_xml::events::Event::{Empty, End, Eof, Start, Text};
use quick_xml::Reader;
use std::io::Cursor;

use crate::decimal::{
    float_error_message, float_error_text, float_kind, int_error, int_error_message, int_error_of,
    int_error_text, is_float_literal,
};
use crate::error::AppError;
use crate::text::{from_chars, i64_text, int_text, parse_i64, parse_int, to_chars, trim, trim_chars};
use crate::timer::str_eq;
use crate::xmlrpc::{
    Val, XmlRpcValue, deep_items, deep_members, lemma_deep_items, lemma_deep_members, member_lookup,
    struct_get, val_as_i64,
};
use vstd::string::StringExecFns;

verus! {

/// What the reader hands on: element starts, ends and empty elements by
/// local name, text (decoded, still escaped), any other event (CDATA,
/// comments, declarations, processing instructions, doctypes: a response has
/// no use for them), the end of input, or a failure (its text).
#[derive(Debug)]
pub enum XmlToken {
    Start(String),
    Empty(String),
    End(String),
    Text(String),
    /// Text whose bytes could not be decoded (the decoder's message).
    BadText(String),
    Other,
    Eof,
    Fail(String),
}

pub open spec fn is_terminal(t: XmlToken) -> bool {
    t is Eof || t is Fail
}

/// A token stream as a reader produces it: it ends with the end of input or
/// a failure, and nothing before that is either.
pub open spec fn well_ended(toks: Seq<XmlToken>) -> bool {
    &&& toks.len() >= 1
    &&& is_terminal(toks.last())
    &&& forall|i: int| 0 <= i < toks.len() - 1 ==> !is_terminal(#[trigger] toks[i])
}

/// The tokens `quick_xml` reads from `xml` with text trimming on, up to and
/// including the end of input or the first error.
pub uninterp spec fn xml_tokens(xml: Seq<char>) -> Seq<XmlToken>;

/// What `quick_xml::escape::unescape` makes of a text: the text with entity
/// and character references resolved, or the error's message.
pub uninterp spec fn unescape_result(s: Seq<char>) -> Result<Seq<char>, Seq<char>>;

/// The token at `p`; past the end the input is over.
pub open spec fn tok(t: Seq<XmlToken>, p: int) -> XmlToken {
    if 0 <= p < t.len() {
        t[p]
    } else {
        XmlToken::Eof
    }
}

/// What a reading step gives: its result (or the error's text) and the
/// position after the tokens it read.
pub type Parsed<T> = (Result<T, Seq<char>>, int);

/// Text up to the next end tag; text pieces are unescaped and joined.
pub open spec fn rpc_text(t: Seq<XmlToken>, p: int, acc: Seq<char>) -> Parsed<Seq<char>>
    decreases t.len() - p, 0int,
{
    if p < 0 || p >= t.len() {
        (Err("Unexpected EOF reading text"@), p)
    } else {
        match t[p] {
            XmlToken::Text(s) => match unescape_result(s@) {
                Ok(u) => rpc_text(t, p + 1, acc + u),
                Err(m) => (Err(m), p + 1),
            },
            XmlToken::BadText(m) => (Err(m@), p + 1),
            XmlToken::End(_) => (Ok(acc), p + 1),
            XmlToken::Eof => (Err("Unexpected EOF reading text"@), p + 1),
            XmlToken::Fail(m) => (Err(m@), p + 1),
            _ => rpc_text(t, p + 1, acc),
        }
    }
}

/// A `<value>` body (its start tag already read).
pub open spec fn rpc_value(t: Seq<XmlToken>, p: int) -> Parsed<Val>
    decreases t.len() - p, 0int,
{
    if p < 0 || p >= t.len() {
        (Err("Unexpected EOF in value"@), p)
    } else {
        match t[p] {
            XmlToken::Start(tag) => rpc_typed(t, tag@, p + 1),
            XmlToken::Empty(tag) => (Ok(if tag@ == "nil"@ { Val::Nil } else { Val::Str(Seq::empty()) }), p + 1),
            XmlToken::Text(s) => match unescape_result(s@) {
                Ok(u) => (Ok(Val::Str(u)), p + 1),
                Err(m) => (Err(m), p + 1),
            },
            XmlToken::BadText(m) => (Err(m@), p + 1),
            XmlToken::End(_) => (Ok(Val::Str(Seq::empty())), p + 1),
            XmlToken::Eof => (Err("Unexpected EOF in value"@), p + 1),
            XmlToken::Fail(m) => (Err(m@), p + 1),
            _ => rpc_value(t, p + 1),
        }
    }
}

/// A typed element (its start tag `tag` already read), through its end tag.
pub open spec fn rpc_typed(t: Seq<XmlToken>, tag: Seq<char>, p: int) -> Parsed<Val>
    decreases t.len() - p, 1int,
{
    if tag == "array"@ {
        rpc_array(t, p, Seq::empty())
    } else if tag == "struct"@ {
        rpc_struct(t, p, Seq::empty())
    } else {
        let (r, q) = rpc_text(t, p, Seq::empty());
        match r {
            Err(m) => (Err(m), q),
            Ok(text) => if tag == "int"@ || tag == "i4"@ || tag == "i8"@ {
                match parse_int(trim(text)) {
                    Some(n) => (Ok(Val::Int(n)), q),
                    None => (Err("Bad int: "@ + int_error_text(int_error(trim(text)))), q),
                }
            } else if tag == "boolean"@ {
                (Ok(Val::Bool(trim(text) == "1"@ || trim(text) == "true"@)), q)
            } else if tag == "double"@ {
                if float_kind(trim(text)) is Some {
                    (Ok(Val::Double(trim(text))), q)
                } else {
                    (Err("Bad double: "@ + float_error_text(trim(text))), q)
                }
            } else if tag == "nil"@ {
                (Ok(Val::Nil), q)
            } else {
                (Ok(Val::Str(text)), q)
            },
        }
    }
}

/// Array contents (start tag read) through `</array>`.
pub open spec fn rpc_array(t: Seq<XmlToken>, p: int, items: Seq<Val>) -> Parsed<Val>
    decreases t.len() - p, 0int,
{
    if p < 0 || p >= t.len() {
        (Err("Unexpected EOF in array"@), p)
    } else {
        match t[p] {
            XmlToken::Start(name) => if name@ == "data"@ {
                let (r, q) = rpc_data(t, p + 1, Seq::empty());
                match r {
                    Err(m) => (Err(m), q),
                    Ok(vs) => if p < q <= t.len() { rpc_array(t, q, vs) } else { (Err(Seq::empty()), q) },
                }
            } else if name@ == "value"@ {
                let (r, q) = rpc_value(t, p + 1);
                match r {
                    Err(m) => (Err(m), q),
                    Ok(v) => if p < q <= t.len() { rpc_array(t, q, items.push(v)) } else { (Err(Seq::empty()), q) },
                }
            } else {
                rpc_array(t, p + 1, items)
            },
            XmlToken::End(name) => if name@ == "array"@ {
                (Ok(Val::Array(items)), p + 1)
            } else {
                rpc_array(t, p + 1, items)
            },
            XmlToken::Eof => (Err("Unexpected EOF in array"@), p + 1),
            XmlToken::Fail(m) => (Err(m@), p + 1),
            _ => rpc_array(t, p + 1, items),
        }
    }
}

/// `<value>` elements up to `</data>`.
pub open spec fn rpc_data(t: Seq<XmlToken>, p: int, items: Seq<Val>) -> Parsed<Seq<Val>>
    decreases t.len() - p, 0int,
{
    if p < 0 || p >= t.len() {
        (Err("Unexpected EOF in data"@), p)
    } else {
        match t[p] {
            XmlToken::Start(name) => if name@ == "value"@ {
                let (r, q) = rpc_value(t, p + 1);
                match r {
                    Err(m) => (Err(m), q),
                    Ok(v) => if p < q <= t.len() { rpc_data(t, q, items.push(v)) } else { (Err(Seq::empty()), q) },
                }
            } else {
                rpc_data(t, p + 1, items)
            },
            XmlToken::End(name) => if name@ == "data"@ {
                (Ok(items), p + 1)
            } else {
                rpc_data(t, p + 1, items)
            },
            XmlToken::Eof => (Err("Unexpected EOF in data"@), p + 1),
            XmlToken::Fail(m) => (Err(m@), p + 1),
            _ => rpc_data(t, p + 1, items),
        }
    }
}

/// Index of the last member named `key`, or -1.
pub open spec fn last_key_index(ms: Seq<(Seq<char>, Val)>, key: Seq<char>) -> int
    decreases ms.len(),
{
    if ms.len() == 0 {
        -1
    } else if ms.last().0 == key {
        ms.len() - 1
    } else {
        last_key_index(ms.drop_last(), key)
    }
}

/// Insert a member the way a map does: a member of the same name is replaced.
pub open spec fn member_insert(ms: Seq<(Seq<char>, Val)>, key: Seq<char>, v: Val) -> Seq<(Seq<char>, Val)> {
    let i = last_key_index(ms, key);
    if i < 0 {
        ms.push((key, v))
    } else {
        ms.update(i, (key, v))
    }
}

/// Struct contents (start tag read) through `</struct>`.
pub open spec fn rpc_struct(t: Seq<XmlToken>, p: int, ms: Seq<(Seq<char>, Val)>) -> Parsed<Val>
    decreases t.len() - p, 0int,
{
    if p < 0 || p >= t.len() {
        (Err("Unexpected EOF in struct"@), p)
    } else {
        match t[p] {
            XmlToken::Start(name) => if name@ == "member"@ {
                let (r, q) = rpc_member(t, p + 1, Seq::empty(), Val::Nil);
                match r {
                    Err(m) => (Err(m), q),
                    Ok((k, v)) => if p < q <= t.len() { rpc_struct(t, q, member_insert(ms, k, v)) } else { (Err(Seq::empty()), q) },
                }
            } else {
                rpc_struct(t, p + 1, ms)
            },
            XmlToken::End(name) => if name@ == "struct"@ {
                (Ok(Val::Struct(ms)), p + 1)
            } else {
                rpc_struct(t, p + 1, ms)
            },
            XmlToken::Eof => (Err("Unexpected EOF in struct"@), p + 1),
            XmlToken::Fail(m) => (Err(m@), p + 1),
            _ => rpc_struct(t, p + 1, ms),
        }
    }
}

/// A `<member>` (start tag read) through `</member>`: its name and value.
pub open spec fn rpc_member(t: Seq<XmlToken>, p: int, key: Seq<char>, val: Val) -> Parsed<(Seq<char>, Val)>
    decreases t.len() - p, 0int,
{
    if p < 0 || p >= t.len() {
        (Err("Unexpected EOF in member"@), p)
    } else {
        match t[p] {
            XmlToken::Start(name) => if name@ == "name"@ {
                let (r, q) = rpc_text(t, p + 1, Seq::empty());
                match r {
                    Err(m) => (Err(m), q),
                    Ok(k) => if p < q <= t.len() { rpc_member(t, q, k, val) } else { (Err(Seq::empty()), q) },
                }
            } else if name@ == "value"@ {
                let (r, q) = rpc_value(t, p + 1);
                match r {
                    Err(m) => (Err(m), q),
                    Ok(v) => if p < q <= t.len() { rpc_member(t, q, key, v) } else { (Err(Seq::empty()), q) },
                }
            } else {
                rpc_member(t, p + 1, key, val)
            },
            XmlToken::End(name) => if name@ == "member"@ {
                (Ok((key, val)), p + 1)
            } else {
                rpc_member(t, p + 1, key, val)
            },
            XmlToken::Eof => (Err("Unexpected EOF in member"@), p + 1),
            XmlToken::Fail(m) => (Err(m@), p + 1),
            _ => rpc_member(t, p + 1, key, val),
        }
    }
}

/// How `{:?}` writes a character inside a quoted string: quotes, backslashes
/// and the common control characters escaped.
pub open spec fn debug_char(c: char) -> Seq<char> {
    if c == '"' {
        seq!['\\', '"']
    } else if c == '\\' {
        seq!['\\', '\\']
    } else if c == '\n' {
        seq!['\\', 'n']
    } else if c == '\r' {
        seq!['\\', 'r']
    } else if c == '\t' {
        seq!['\\', 't']
    } else {
        seq![c]
    }
}

pub open spec fn debug_chars(s: Seq<char>) -> Seq<char>
    decreases s.len(),
{
    if s.len() == 0 {
        Seq::empty()
    } else {
        debug_chars(s.drop_last()) + debug_char(s.last())
    }
}

/// A string as `{:?}` writes it: quoted.
pub open spec fn debug_str(s: Seq<char>) -> Seq<char> {
    seq!['"'] + debug_chars(s) + seq!['"']
}

/// A value written the way `{:?}` writes an XML-RPC value: the variant and
/// its contents; a double as its text, a struct's members in order.
pub open spec fn debug_text(v: Val) -> Seq<char>
    decreases v,
{
    match v {
        Val::Int(i) => "Int("@ + int_text(i as int) + ")"@,
        Val::Bool(b) => "Bool("@ + (if b { "true"@ } else { "false"@ }) + ")"@,
        Val::Double(t) => "Double("@ + t + ")"@,
        Val::Str(s) => "String("@ + debug_str(s) + ")"@,
        Val::Array(items) => "Array(["@ + debug_items(items) + "])"@,
        Val::Struct(ms) => "Struct({"@ + debug_members(ms) + "})"@,
        Val::Nil => "Nil"@,
    }
}

/// Items separated by `, `.
pub open spec fn debug_items(items: Seq<Val>) -> Seq<char>
    decreases items,
{
    if items.len() == 0 {
        Seq::empty()
    } else if items.len() == 1 {
        debug_text(items.last())
    } else {
        debug_items(items.drop_last()) + ", "@ + debug_text(items.last())
    }
}

/// Members as `"name": value`, separated by `, `.
pub open spec fn debug_members(ms: Seq<(Seq<char>, Val)>) -> Seq<char>
    decreases ms,
{
    if ms.len() == 0 {
        Seq::empty()
    } else if ms.len() == 1 {
        debug_str(ms.last().0) + ": "@ + debug_text(ms.last().1)
    } else {
        debug_members(ms.drop_last()) + ", "@ + debug_str(ms.last().0) + ": "@ + debug_text(ms.last().1)
    }
}

/// The message of a fault: code and string of a fault struct, or the value
/// as `{:?}` writes it when the fault is not a struct.
pub open spec fn fault_message(v: Val) -> Seq<char> {
    match v {
        Val::Struct(ms) => {
            let code = match member_lookup(ms, "faultCode"@) {
                Some(c) => match val_as_i64(c) {
                    Some(n) => n,
                    None => 0,
                },
                None => 0,
            };
            let text = match member_lookup(ms, "faultString"@) {
                Some(Val::Str(s)) => s,
                _ => "Unknown fault"@,
            };
            "XML-RPC fault "@ + int_text(code as int) + ": "@ + text
        },
        _ => "XML-RPC fault: "@ + debug_text(v),
    }
}

/// After `<params>`: the first `<value>`.
pub open spec fn rpc_params(t: Seq<XmlToken>, p: int) -> Parsed<Val>
    decreases t.len() - p,
{
    if p < 0 || p >= t.len() {
        (Err("Unexpected EOF in params"@), p)
    } else {
        match t[p] {
            XmlToken::Start(name) => if name@ == "value"@ { rpc_value(t, p + 1) } else { rpc_params(t, p + 1) },
            XmlToken::End(_) => (Err("No value in params"@), p + 1),
            XmlToken::Eof => (Err("Unexpected EOF in params"@), p + 1),
            XmlToken::Fail(m) => (Err(m@), p + 1),
            _ => rpc_params(t, p + 1),
        }
    }
}

/// After `<fault>`: the fault value, always reported as an error.
pub open spec fn rpc_fault(t: Seq<XmlToken>, p: int) -> Parsed<Val>
    decreases t.len() - p,
{
    if p < 0 || p >= t.len() {
        (Err("Unexpected EOF in fault"@), p)
    } else {
        match t[p] {
            XmlToken::Start(name) => if name@ == "value"@ {
                let (r, q) = rpc_value(t, p + 1);
                match r {
                    Err(m) => (Err(m), q),
                    Ok(v) => (Err(fault_message(v)), q),
                }
            } else {
                rpc_fault(t, p + 1)
            },
            XmlToken::End(_) => (Err("No value in fault"@), p + 1),
            XmlToken::Eof => (Err("Unexpected EOF in fault"@), p + 1),
            XmlToken::Fail(m) => (Err(m@), p + 1),
            _ => rpc_fault(t, p + 1),
        }
    }
}

/// Inside `<methodResponse>`: `<params>` or `<fault>`.
pub open spec fn rpc_body(t: Seq<XmlToken>, p: int) -> Parsed<Val>
    decreases t.len() - p,
{
    if p < 0 || p >= t.len() {
        (Err("Unexpected EOF in methodResponse"@), p)
    } else {
        match t[p] {
            XmlToken::Start(name) => if name@ == "params"@ {
                rpc_params(t, p + 1)
            } else if name@ == "fault"@ {
                rpc_fault(t, p + 1)
            } else {
                rpc_body(t, p + 1)
            },
            XmlToken::End(_) => (Err("Empty methodResponse"@), p + 1),
            XmlToken::Eof => (Err("Unexpected EOF in methodResponse"@), p + 1),
            XmlToken::Fail(m) => (Err(m@), p + 1),
            _ => rpc_body(t, p + 1),
        }
    }
}

/// The whole response: the value of its params, or its fault as an error.
pub open spec fn rpc_response(t: Seq<XmlToken>, p: int) -> Parsed<Val>
    decreases t.len() - p,
{
    if p < 0 || p >= t.len() {
        (Err("No methodResponse found"@), p)
    } else {
        match t[p] {
            XmlToken::Start(name) => if name@ == "methodResponse"@ { rpc_body(t, p + 1) } else { rpc_response(t, p + 1) },
            XmlToken::Eof => (Err("No methodResponse found"@), p + 1),
            XmlToken::Fail(m) => (Err(m@), p + 1),
            _ => rpc_response(t, p + 1),
        }
    }
}

} // verus!

verus! {

// ── The reader ───────────────────────────────────────────────────────

#[verifier::external_type_specification]
#[verifier::external_body]
#[verifier::reject_recursive_types(R)]
pub struct ExXmlReader<R>(Reader<R>);

/// The tokens a reader will still hand out, through the end of input or the
/// first error.
pub uninterp spec fn tokens_left(r: Reader<Cursor<Vec<u8>>>) -> Seq<XmlToken>;

/// `Reader::from_reader` over the bytes of `xml`, with `trim_text(true)`:
/// it will hand out the tokens of `xml`, a stream that ends with the end of
/// input or an error.
#[verifier::external_body]
fn xml_reader(xml: &str) -> (r: Reader<Cursor<Vec<u8>>>)
    ensures
        tokens_left(r) == xml_tokens(xml@),
        well_ended(tokens_left(r)),
{
    let mut r = Reader::from_reader(Cursor::new(xml.as_bytes().to_vec()));
    r.config_mut().trim_text(true);
    r
}

/// `Reader::read_event_into`: hands out the next token. Element names are
/// local names read as (lossy) UTF-8; a text event's bytes are converted to a
/// string with the reader's decoder (`Decoder::decode`: in this build, UTF-8
/// that fails on invalid bytes); a failure comes back as its message.
#[verifier::external_body]
fn xml_next(r: &mut Reader<Cursor<Vec<u8>>>) -> (t: XmlToken)
    requires
        tokens_left(*old(r)).len() > 0,
    ensures
        t == tokens_left(*old(r))[0],
        tokens_left(*final(r)) == tokens_left(*old(r)).drop_first(),
{
    match r.read_event_into(&mut Vec::new()) {
        Ok(Start(e)) => XmlToken::Start(String::from_utf8_lossy(e.local_name().as_ref()).into_owned()),
        Ok(Empty(e)) => XmlToken::Empty(String::from_utf8_lossy(e.local_name().as_ref()).into_owned()),
        Ok(End(e)) => XmlToken::End(String::from_utf8_lossy(e.local_name().as_ref()).into_owned()),
        Ok(Text(e)) => match r.decoder().decode(&e) {
            Ok(s) => XmlToken::Text(s.into_owned()),
            Err(x) => XmlToken::BadText(x.to_string()),
        },
        Ok(Eof) => XmlToken::Eof,
        Ok(_) => XmlToken::Other,
        Err(x) => XmlToken::Fail(x.to_string()),
    }
}

/// `quick_xml::escape::unescape`: entity and character references resolved,
/// or the error's message.
#[verifier::external_body]
fn xml_unescape(s: &str) -> (r: Result<String, String>)
    ensures
        same_text(r, unescape_result(s@)),
{
    match quick_xml::escape::unescape(s) {
        Ok(u) => Ok(u.into_owned()),
        Err(e) => Err(e.to_string()),
    }
}

/// An exec result and a spec result agree.
pub open spec fn same_text(r: Result<String, String>, s: Result<Seq<char>, Seq<char>>) -> bool {
    match (r, s) {
        (Ok(a), Ok(b)) => a@ == b,
        (Err(a), Err(b)) => a@ == b,
        _ => false,
    }
}

/// The tokens of `xml`, as the reader hands them out.
pub fn tokenize(xml: &str) -> (toks: Vec<XmlToken>)
    ensures
        toks@ == xml_tokens(xml@),
{
    let mut r = xml_reader(xml);
    let ghost all = xml_tokens(xml@);
    let mut toks: Vec<XmlToken> = Vec::new();
    loop
        invariant_except_break
            all == toks@ + tokens_left(r),
            forall|i: int| 0 <= i < toks@.len() ==> !is_terminal(#[trigger] toks@[i]),
        invariant
            well_ended(all),
        ensures
            toks@ == all,
        decreases tokens_left(r).len(),
    {
        proof {
            if tokens_left(r).len() == 0 {
                assert(all == toks@);
                assert(!is_terminal(toks@[toks@.len() - 1]));
            }
        }
        let ghost before = tokens_left(r);
        let t = xml_next(&mut r);
        let done = match &t {
            XmlToken::Eof => true,
            XmlToken::Fail(_) => true,
            _ => false,
        };
        let ghost seen = toks@;
        toks.push(t);
        proof {
            assert(all == toks@ + tokens_left(r)) by {
                assert(before == seq![before[0]] + before.drop_first());
            }
        }
        if done {
            proof {
                let k = toks@.len() - 1;
                assert(all[k] == toks@[k]);
                assert(is_terminal(all[k]));
                if tokens_left(r).len() > 0 {
                    assert(k < all.len() - 1);
                }
                assert(toks@ == all);
            }
            break;
        }
    }
    toks
}

} // verus!

verus! {

// ── Reading the tokens ───────────────────────────────────────────────

pub open spec fn same_val(r: Result<XmlRpcValue, String>, s: Result<Val, Seq<char>>) -> bool {
    match (r, s) {
        (Ok(a), Ok(b)) => a.deep() == b,
        (Err(a), Err(b)) => a@ == b,
        _ => false,
    }
}

pub open spec fn same_items(r: Result<Vec<XmlRpcValue>, String>, s: Result<Seq<Val>, Seq<char>>) -> bool {
    match (r, s) {
        (Ok(a), Ok(b)) => deep_items(a@) == b,
        (Err(a), Err(b)) => a@ == b,
        _ => false,
    }
}

pub open spec fn same_member(r: Result<(String, XmlRpcValue), String>, s: Result<(Seq<char>, Val), Seq<char>>) -> bool {
    match (r, s) {
        (Ok(a), Ok(b)) => a.0@ == b.0 && a.1.deep() == b.1,
        (Err(a), Err(b)) => a@ == b,
        _ => false,
    }
}

/// Text through the next end tag.
fn read_text(t: &[XmlToken], p0: usize) -> (res: (Result<String, String>, usize))
    requires
        p0 <= t@.len(),
    ensures
        same_text(res.0, rpc_text(t@, p0 as int, Seq::empty()).0),
        res.1 == rpc_text(t@, p0 as int, Seq::empty()).1,
        p0 <= res.1 <= t@.len(),
{
    let mut acc = String::new();
    let mut p = p0;
    loop
        invariant
            p0 <= p <= t@.len(),
            rpc_text(t@, p0 as int, Seq::empty()) == rpc_text(t@, p as int, acc@),
        decreases t@.len() - p,
    {
        if p >= t.len() {
            return (Err(String::from_str("Unexpected EOF reading text")), p);
        }
        match &t[p] {
            XmlToken::Text(s) => match xml_unescape(s.as_str()) {
                Ok(u) => {
                    acc.append(u.as_str());
                    p = p + 1;
                },
                Err(m) => {
                    return (Err(m), p + 1);
                },
            },
            XmlToken::BadText(m) => {
                return (Err(m.clone()), p + 1);
            },
            XmlToken::End(_) => {
                return (Ok(acc), p + 1);
            },
            XmlToken::Eof => {
                return (Err(String::from_str("Unexpected EOF reading text")), p + 1);
            },
            XmlToken::Fail(m) => {
                return (Err(m.clone()), p + 1);
            },
            _ => {
                p = p + 1;
            },
        }
    }
}

/// A `<value>` body, its start tag read.
fn parse_value(t: &[XmlToken], p0: usize) -> (res: (Result<XmlRpcValue, String>, usize))
    requires
        p0 <= t@.len(),
    ensures
        same_val(res.0, rpc_value(t@, p0 as int).0),
        res.1 == rpc_value(t@, p0 as int).1,
        p0 <= res.1 <= t@.len(),
    decreases t@.len() - p0, 0int,
{
    let mut p = p0;
    loop
        invariant
            p0 <= p <= t@.len(),
            rpc_value(t@, p0 as int) == rpc_value(t@, p as int),
        decreases t@.len() - p,
    {
        if p >= t.len() {
            return (Err(String::from_str("Unexpected EOF in value")), p);
        }
        match &t[p] {
            XmlToken::Start(tag) => {
                return parse_typed(t, tag.as_str(), p + 1);
            },
            XmlToken::Empty(tag) => {
                let v = if str_eq(tag.as_str(), "nil") {
                    XmlRpcValue::Nil
                } else {
                    XmlRpcValue::String(String::new())
                };
                return (Ok(v), p + 1);
            },
            XmlToken::Text(s) => {
                return match xml_unescape(s.as_str()) {
                    Ok(u) => (Ok(XmlRpcValue::String(u)), p + 1),
                    Err(m) => (Err(m), p + 1),
                };
            },
            XmlToken::BadText(m) => {
                return (Err(m.clone()), p + 1);
            },
            XmlToken::End(_) => {
                return (Ok(XmlRpcValue::String(String::new())), p + 1);
            },
            XmlToken::Eof => {
                return (Err(String::from_str("Unexpected EOF in value")), p + 1);
            },
            XmlToken::Fail(m) => {
                return (Err(m.clone()), p + 1);
            },
            _ => {
                p = p + 1;
            },
        }
    }
}

/// A typed element named `tag`, its start tag read, through its end tag.
fn parse_typed(t: &[XmlToken], tag: &str, p0: usize) -> (res: (Result<XmlRpcValue, String>, usize))
    requires
        p0 <= t@.len(),
    ensures
        same_val(res.0, rpc_typed(t@, tag@, p0 as int).0),
        res.1 == rpc_typed(t@, tag@, p0 as int).1,
        p0 <= res.1 <= t@.len(),
    decreases t@.len() - p0, 1int,
{
    if str_eq(tag, "array") {
        return parse_array(t, p0);
    }
    if str_eq(tag, "struct") {
        return parse_struct(t, p0);
    }
    let (r, q) = read_text(t, p0);
    let text = match r {
        Err(m) => {
            return (Err(m), q);
        },
        Ok(x) => x,
    };
    let chars = to_chars(text.as_str());
    let tr = trim_chars(chars.as_slice());
    let trs = from_chars(tr.as_slice());
    if str_eq(tag, "int") || str_eq(tag, "i4") || str_eq(tag, "i8") {
        match parse_i64(tr.as_slice()) {
            Some(n) => (Ok(XmlRpcValue::Int(n)), q),
            None => {
                let mut m = String::from_str("Bad int: ");
                let why = int_error_message(int_error_of(tr.as_slice()));
                m.append(why.as_str());
                (Err(m), q)
            },
        }
    } else if str_eq(tag, "boolean") {
        (Ok(XmlRpcValue::Bool(str_eq(trs.as_str(), "1") || str_eq(trs.as_str(), "true"))), q)
    } else if str_eq(tag, "double") {
        if is_float_literal(tr.as_slice()) {
            (Ok(XmlRpcValue::Double(trs)), q)
        } else {
            let mut m = String::from_str("Bad double: ");
            let why = float_error_message(tr.as_slice());
            m.append(why.as_str());
            (Err(m), q)
        }
    } else if str_eq(tag, "nil") {
        (Ok(XmlRpcValue::Nil), q)
    } else {
        (Ok(XmlRpcValue::String(text)), q)
    }
}

/// Array contents, `<array>` read, through `</array>`.
fn parse_array(t: &[XmlToken], p0: usize) -> (res: (Result<XmlRpcValue, String>, usize))
    requires
        p0 <= t@.len(),
    ensures
        same_val(res.0, rpc_array(t@, p0 as int, Seq::empty()).0),
        res.1 == rpc_array(t@, p0 as int, Seq::empty()).1,
        p0 <= res.1 <= t@.len(),
    decreases t@.len() - p0, 0int,
{
    let mut items: Vec<XmlRpcValue> = Vec::new();
    let mut p = p0;
    loop
        invariant
            p0 <= p <= t@.len(),
            rpc_array(t@, p0 as int, Seq::empty()) == rpc_array(t@, p as int, deep_items(items@)),
        decreases t@.len() - p,
    {
        if p >= t.len() {
            return (Err(String::from_str("Unexpected EOF in array")), p);
        }
        match &t[p] {
            XmlToken::Start(name) => {
                if str_eq(name.as_str(), "data") {
                    let (r, q) = parse_data(t, p + 1);
                    match r {
                        Err(m) => {
                            return (Err(m), q);
                        },
                        Ok(vs) => {
                            items = vs;
                            p = q;
                        },
                    }
                } else if str_eq(name.as_str(), "value") {
                    let (r, q) = parse_value(t, p + 1);
                    match r {
                        Err(m) => {
                            return (Err(m), q);
                        },
                        Ok(v) => {
                            let ghost before = items@;
                            items.push(v);
                            assert(items@.drop_last() == before);
                            p = q;
                        },
                    }
                } else {
                    p = p + 1;
                }
            },
            XmlToken::End(name) => {
                if str_eq(name.as_str(), "array") {
                    return (Ok(XmlRpcValue::Array(items)), p + 1);
                }
                p = p + 1;
            },
            XmlToken::Eof => {
                return (Err(String::from_str("Unexpected EOF in array")), p + 1);
            },
            XmlToken::Fail(m) => {
                return (Err(m.clone()), p + 1);
            },
            _ => {
                p = p + 1;
            },
        }
    }
}

/// `<value>` elements, `<data>` read, through `</data>`.
fn parse_data(t: &[XmlToken], p0: usize) -> (res: (Result<Vec<XmlRpcValue>, String>, usize))
    requires
        p0 <= t@.len(),
    ensures
        same_items(res.0, rpc_data(t@, p0 as int, Seq::empty()).0),
        res.1 == rpc_data(t@, p0 as int, Seq::empty()).1,
        p0 <= res.1 <= t@.len(),
    decreases t@.len() - p0, 0int,
{
    let mut items: Vec<XmlRpcValue> = Vec::new();
    let mut p = p0;
    loop
        invariant
            p0 <= p <= t@.len(),
            rpc_data(t@, p0 as int, Seq::empty()) == rpc_data(t@, p as int, deep_items(items@)),
        decreases t@.len() - p,
    {
        if p >= t.len() {
            return (Err(String::from_str("Unexpected EOF in data")), p);
        }
        match &t[p] {
            XmlToken::Start(name) => {
                if str_eq(name.as_str(), "value") {
                    let (r, q) = parse_value(t, p + 1);
                    match r {
                        Err(m) => {
                            return (Err(m), q);
                        },
                        Ok(v) => {
                            let ghost before = items@;
                            items.push(v);
                            assert(items@.drop_last() == before);
                            p = q;
                        },
                    }
                } else {
                    p = p + 1;
                }
            },
            XmlToken::End(name) => {
                if str_eq(name.as_str(), "data") {
                    return (Ok(items), p + 1);
                }
                p = p + 1;
            },
            XmlToken::Eof => {
                return (Err(String::from_str("Unexpected EOF in data")), p + 1);
            },
            XmlToken::Fail(m) => {
                return (Err(m.clone()), p + 1);
            },
            _ => {
                p = p + 1;
            },
        }
    }
}

pub proof fn lemma_last_key_index(ms: Seq<(Seq<char>, Val)>, key: Seq<char>)
    ensures
        -1 <= last_key_index(ms, key) < ms.len(),
        last_key_index(ms, key) >= 0 ==> ms[last_key_index(ms, key)].0 == key,
        forall|j: int| last_key_index(ms, key) < j < ms.len() ==> (#[trigger] ms[j]).0 != key,
    decreases ms.len(),
{
    if ms.len() > 0 && ms.last().0 != key {
        lemma_last_key_index(ms.drop_last(), key);
        assert forall|j: int| last_key_index(ms, key) < j < ms.len() implies (#[trigger] ms[j]).0 != key by {
            if j < ms.len() - 1 {
                assert(ms.drop_last()[j] == ms[j]);
            }
        }
    }
}

/// Adds a member the way a map does: one of the same name is replaced.
fn insert_member(ms: &mut Vec<(String, XmlRpcValue)>, k: String, v: XmlRpcValue)
    ensures
        deep_members(final(ms)@) == member_insert(deep_members(old(ms)@), k@, v.deep()),
{
    let ghost m0 = ms@;
    proof {
        lemma_deep_members(m0);
    }
    let mut i = ms.len();
    while i > 0
        invariant
            ms@ == m0,
            old(ms)@ == m0,
            i <= m0.len(),
            deep_members(m0).len() == m0.len(),
            forall|j: int| i <= j < m0.len() ==> (#[trigger] m0[j]).0@ != k@,
            forall|j: int| 0 <= j < m0.len() ==> (#[trigger] deep_members(m0)[j]) == (m0[j].0@, m0[j].1.deep()),
        decreases i,
    {
        if str_eq(ms[i - 1].0.as_str(), k.as_str()) {
            let ghost kv = k@;
            let ghost vd = v.deep();
            ms.set(i - 1, (k, v));
            proof {
                lemma_last_key_index(deep_members(m0), kv);
                let r = last_key_index(deep_members(m0), kv);
                assert(deep_members(m0)[i - 1].0 == kv);
                if r < i - 1 {
                    assert(deep_members(m0)[i - 1].0 != kv);
                }
                if r > i - 1 {
                    assert(m0[r].0@ != kv);
                }
                assert(r == i - 1);
                lemma_deep_members(ms@);
                assert forall|j: int| 0 <= j < m0.len() implies #[trigger] deep_members(ms@)[j] == deep_members(
                    m0,
                ).update(i - 1, (kv, vd))[j] by {
                    assert(ms@[j] == m0.update(i - 1, ms@[i - 1])[j]);
                }
                assert(deep_members(ms@) =~= deep_members(m0).update(i - 1, (kv, vd)));
                assert(deep_members(ms@) == member_insert(deep_members(m0), kv, vd));
            }
            return;
        }
        i -= 1;
    }
    proof {
        lemma_last_key_index(deep_members(m0), k@);
        let r = last_key_index(deep_members(m0), k@);
        if r >= 0 {
            assert(m0[r].0@ != k@);
        }
    }
    let ghost kv = k@;
    let ghost vd = v.deep();
    ms.push((k, v));
    assert(ms@.drop_last() == m0);
    assert(deep_members(ms@) == deep_members(m0).push((kv, vd)));
}

/// Struct contents, `<struct>` read, through `</struct>`.
fn parse_struct(t: &[XmlToken], p0: usize) -> (res: (Result<XmlRpcValue, String>, usize))
    requires
        p0 <= t@.len(),
    ensures
        same_val(res.0, rpc_struct(t@, p0 as int, Seq::empty()).0),
        res.1 == rpc_struct(t@, p0 as int, Seq::empty()).1,
        p0 <= res.1 <= t@.len(),
    decreases t@.len() - p0, 0int,
{
    let mut members: Vec<(String, XmlRpcValue)> = Vec::new();
    let mut p = p0;
    loop
        invariant
            p0 <= p <= t@.len(),
            rpc_struct(t@, p0 as int, Seq::empty()) == rpc_struct(t@, p as int, deep_members(members@)),
        decreases t@.len() - p,
    {
        if p >= t.len() {
            return (Err(String::from_str("Unexpected EOF in struct")), p);
        }
        match &t[p] {
            XmlToken::Start(name) => {
                if str_eq(name.as_str(), "member") {
                    let (r, q) = parse_member(t, p + 1);
                    match r {
                        Err(m) => {
                            return (Err(m), q);
                        },
                        Ok((k, v)) => {
                            insert_member(&mut members, k, v);
                            p = q;
                        },
                    }
                } else {
                    p = p + 1;
                }
            },
            XmlToken::End(name) => {
                if str_eq(name.as_str(), "struct") {
                    return (Ok(XmlRpcValue::Struct(members)), p + 1);
                }
                p = p + 1;
            },
            XmlToken::Eof => {
                return (Err(String::from_str("Unexpected EOF in struct")), p + 1);
            },
            XmlToken::Fail(m) => {
                return (Err(m.clone()), p + 1);
            },
            _ => {
                p = p + 1;
            },
        }
    }
}

/// A `<member>`, its start tag read, through `</member>`.
fn parse_member(t: &[XmlToken], p0: usize) -> (res: (Result<(String, XmlRpcValue), String>, usize))
    requires
        p0 <= t@.len(),
    ensures
        same_member(res.0, rpc_member(t@, p0 as int, Seq::empty(), Val::Nil).0),
        res.1 == rpc_member(t@, p0 as int, Seq::empty(), Val::Nil).1,
        p0 <= res.1 <= t@.len(),
    decreases t@.len() - p0, 0int,
{
    let mut key = String::new();
    let mut val = XmlRpcValue::Nil;
    let mut p = p0;
    loop
        invariant
            p0 <= p <= t@.len(),
            rpc_member(t@, p0 as int, Seq::empty(), Val::Nil) == rpc_member(t@, p as int, key@, val.deep()),
        decreases t@.len() - p,
    {
        if p >= t.len() {
            return (Err(String::from_str("Unexpected EOF in member")), p);
        }
        match &t[p] {
            XmlToken::Start(name) => {
                if str_eq(name.as_str(), "name") {
                    let (r, q) = read_text(t, p + 1);
                    match r {
                        Err(m) => {
                            return (Err(m), q);
                        },
                        Ok(k) => {
                            key = k;
                            p = q;
                        },
                    }
                } else if str_eq(name.as_str(), "value") {
                    let (r, q) = parse_value(t, p + 1);
                    match r {
                        Err(m) => {
                            return (Err(m), q);
                        },
                        Ok(v) => {
                            val = v;
                            p = q;
                        },
                    }
                } else {
                    p = p + 1;
                }
            },
            XmlToken::End(name) => {
                if str_eq(name.as_str(), "member") {
                    return (Ok((key, val)), p + 1);
                }
                p = p + 1;
            },
            XmlToken::Eof => {
                return (Err(String::from_str("Unexpected EOF in member")), p + 1);
            },
            XmlToken::Fail(m) => {
                return (Err(m.clone()), p + 1);
            },
            _ => {
                p = p + 1;
            },
        }
    }
}

} // verus!

verus! {

// ── Fault messages ───────────────────────────────────────────────────

/// `s` quoted the way `{:?}` quotes it.
fn debug_string(s: &str) -> (res: String)
    ensures
        res@ == debug_str(s@),
{
    let cs = to_chars(s);
    let mut out: Vec<char> = Vec::new();
    out.push('"');
    let mut i: usize = 0;
    while i < cs.len()
        invariant
            i <= cs@.len(),
            out@ == seq!['"'] + debug_chars(cs@.take(i as int)),
        decreases cs@.len() - i,
    {
        let c = cs[i];
        let ghost before = out@;
        if c == '"' {
            out.push('\\');
            out.push('"');
        } else if c == '\\' {
            out.push('\\');
            out.push('\\');
        } else if c == '\n' {
            out.push('\\');
            out.push('n');
        } else if c == '\r' {
            out.push('\\');
            out.push('r');
        } else if c == '\t' {
            out.push('\\');
            out.push('t');
        } else {
            out.push(c);
        }
        proof {
            assert(cs@.take(i + 1).drop_last() == cs@.take(i as int));
            assert(out@ =~= before + debug_char(c));
        }
        i += 1;
    }
    out.push('"');
    assert(cs@.take(cs@.len() as int) == cs@);
    assert(out@ =~= debug_str(s@));
    from_chars(out.as_slice())
}

/// A value written the way `{:?}` writes it.
pub(crate) fn debug_render(v: &XmlRpcValue) -> (res: String)
    ensures
        res@ == debug_text(v.deep()),
    decreases v,
{
    match v {
        XmlRpcValue::Int(i) => {
            let mut out = String::from_str("Int(");
            out.append(from_chars(i64_text(*i).as_slice()).as_str());
            out.append(")");
            out
        },
        XmlRpcValue::Bool(b) => {
            let mut out = String::from_str("Bool(");
            out.append(if *b { "true" } else { "false" });
            out.append(")");
            out
        },
        XmlRpcValue::Double(t) => {
            let mut out = String::from_str("Double(");
            out.append(t.as_str());
            out.append(")");
            out
        },
        XmlRpcValue::String(s) => {
            let mut out = String::from_str("String(");
            out.append(debug_string(s.as_str()).as_str());
            out.append(")");
            out
        },
        XmlRpcValue::Nil => String::from_str("Nil"),
        XmlRpcValue::Array(a) => {
            let mut out = String::from_str("Array([");
            let mut i: usize = 0;
            while i < a.len()
                invariant
                    *v == XmlRpcValue::Array(*a),
                    i <= a@.len(),
                    out@ == "Array(["@ + debug_items(deep_items(a@.take(i as int))),
                decreases a@.len() - i,
            {
                proof {
                    broadcast use vstd::std_specs::vec::axiom_vec_decreases_to_view, vstd::seq::axiom_seq_index_decreases;
                    assert(decreases_to!(*v => (*v)->Array_0));
                    assert(decreases_to!(*a => a@));
                    assert(decreases_to!(a@ => a@[i as int]));
                }
                let ghost before = out@;
                if i > 0 {
                    out.append(", ");
                }
                let item = debug_render(&a[i]);
                out.append(item.as_str());
                proof {
                    let t = a@.take(i + 1);
                    lemma_deep_items(t);
                    assert(t.drop_last() == a@.take(i as int));
                    assert(deep_items(t).drop_last() == deep_items(t.drop_last()));
                    assert(deep_items(t).last() == a@[i as int].deep());
                    if i > 0 {
                        assert(out@ =~= before + ", "@ + debug_text(a@[i as int].deep()));
                    } else {
                        assert(out@ =~= before + debug_text(a@[i as int].deep()));
                    }
                }
                i += 1;
            }
            assert(a@.take(a@.len() as int) == a@);
            out.append("])");
            out
        },
        XmlRpcValue::Struct(m) => {
            let mut out = String::from_str("Struct({");
            let mut i: usize = 0;
            while i < m.len()
                invariant
                    *v == XmlRpcValue::Struct(*m),
                    i <= m@.len(),
                    out@ == "Struct({"@ + debug_members(deep_members(m@.take(i as int))),
                decreases m@.len() - i,
            {
                proof {
                    broadcast use vstd::std_specs::vec::axiom_vec_decreases_to_view, vstd::seq::axiom_seq_index_decreases;
                    assert(decreases_to!(*v => (*v)->Struct_0));
                    assert(decreases_to!(*m => m@));
                    assert(decreases_to!(m@ => m@[i as int]));
                    assert(decreases_to!(m@[i as int] => m@[i as int].1));
                }
                let ghost before = out@;
                if i > 0 {
                    out.append(", ");
                }
                out.append(debug_string(m[i].0.as_str()).as_str());
                out.append(": ");
                let item = debug_render(&m[i].1);
                out.append(item.as_str());
                proof {
                    let t = m@.take(i + 1);
                    lemma_deep_members(t);
                    assert(t.drop_last() == m@.take(i as int));
                    assert(deep_members(t).drop_last() == deep_members(t.drop_last()));
                    assert(deep_members(t).last() == (m@[i as int].0@, m@[i as int].1.deep()));
                    if i > 0 {
                        assert(out@ =~= before + ", "@ + debug_str(m@[i as int].0@) + ": "@ + debug_text(
                            m@[i as int].1.deep(),
                        ));
                    } else {
                        assert(out@ =~= before + debug_str(m@[i as int].0@) + ": "@ + debug_text(
                            m@[i as int].1.deep(),
                        ));
                    }
                }
                i += 1;
            }
            assert(m@.take(m@.len() as int) == m@);
            out.append("})");
            out
        },
    }
}

/// The message a fault value turns into.
fn fault_text(v: &XmlRpcValue) -> (res: String)
    ensures
        res@ == fault_message(v.deep()),
{
    match v {
        XmlRpcValue::Struct(ms) => {
            let code: i64 = match struct_get(ms, "faultCode") {
                Some(c) => match c.as_i64() {
                    Some(n) => n,
                    None => 0,
                },
                None => 0,
            };
            let text: String = match struct_get(ms, "faultString") {
                Some(f) => match f.as_str() {
                    Some(s) => String::from_str(s),
                    None => String::from_str("Unknown fault"),
                },
                None => String::from_str("Unknown fault"),
            };
            let mut out = String::from_str("XML-RPC fault ");
            out.append(from_chars(i64_text(code).as_slice()).as_str());
            out.append(": ");
            out.append(text.as_str());
            out
        },
        _ => {
            let mut out = String::from_str("XML-RPC fault: ");
            out.append(debug_render(v).as_str());
            out
        },
    }
}

} // verus!

verus! {

// ── The response ─────────────────────────────────────────────────────

/// After `<params>`: the first value.
fn parse_params(t: &[XmlToken], p0: usize) -> (res: Result<XmlRpcValue, String>)
    requires
        p0 <= t@.len(),
    ensures
        same_val(res, rpc_params(t@, p0 as int).0),
{
    let mut p = p0;
    loop
        invariant
            p0 <= p <= t@.len(),
            rpc_params(t@, p0 as int) == rpc_params(t@, p as int),
        decreases t@.len() - p,
    {
        if p >= t.len() {
            return Err(String::from_str("Unexpected EOF in params"));
        }
        match &t[p] {
            XmlToken::Start(name) => {
                if str_eq(name.as_str(), "value") {
                    return parse_value(t, p + 1).0;
                }
                p = p + 1;
            },
            XmlToken::End(_) => {
                return Err(String::from_str("No value in params"));
            },
            XmlToken::Eof => {
                return Err(String::from_str("Unexpected EOF in params"));
            },
            XmlToken::Fail(m) => {
                return Err(m.clone());
            },
            _ => {
                p = p + 1;
            },
        }
    }
}

/// After `<fault>`: the fault, as an error.
fn parse_fault(t: &[XmlToken], p0: usize) -> (res: Result<XmlRpcValue, String>)
    requires
        p0 <= t@.len(),
    ensures
        same_val(res, rpc_fault(t@, p0 as int).0),
{
    let mut p = p0;
    loop
        invariant
            p0 <= p <= t@.len(),
            rpc_fault(t@, p0 as int) == rpc_fault(t@, p as int),
        decreases t@.len() - p,
    {
        if p >= t.len() {
            return Err(String::from_str("Unexpected EOF in fault"));
        }
        match &t[p] {
            XmlToken::Start(name) => {
                if str_eq(name.as_str(), "value") {
                    return match parse_value(t, p + 1).0 {
                        Err(m) => Err(m),
                        Ok(v) => Err(fault_text(&v)),
                    };
                }
                p = p + 1;
            },
            XmlToken::End(_) => {
                return Err(String::from_str("No value in fault"));
            },
            XmlToken::Eof => {
                return Err(String::from_str("Unexpected EOF in fault"));
            },
            XmlToken::Fail(m) => {
                return Err(m.clone());
            },
            _ => {
                p = p + 1;
            },
        }
    }
}

/// Inside `<methodResponse>`.
fn parse_body(t: &[XmlToken], p0: usize) -> (res: Result<XmlRpcValue, String>)
    requires
        p0 <= t@.len(),
    ensures
        same_val(res, rpc_body(t@, p0 as int).0),
{
    let mut p = p0;
    loop
        invariant
            p0 <= p <= t@.len(),
            rpc_body(t@, p0 as int) == rpc_body(t@, p as int),
        decreases t@.len() - p,
    {
        if p >= t.len() {
            return Err(String::from_str("Unexpected EOF in methodResponse"));
        }
        match &t[p] {
            XmlToken::Start(name) => {
                if str_eq(name.as_str(), "params") {
                    return parse_params(t, p + 1);
                } else if str_eq(name.as_str(), "fault") {
                    return parse_fault(t, p + 1);
                }
                p = p + 1;
            },
            XmlToken::End(_) => {
                return Err(String::from_str("Empty methodResponse"));
            },
            XmlToken::Eof => {
                return Err(String::from_str("Unexpected EOF in methodResponse"));
            },
            XmlToken::Fail(m) => {
                return Err(m.clone());
            },
            _ => {
                p = p + 1;
            },
        }
    }
}

/// Up to `<methodResponse>`, then its body.
fn parse_document(t: &[XmlToken]) -> (res: Result<XmlRpcValue, String>)
    ensures
        same_val(res, rpc_response(t@, 0).0),
{
    let mut p: usize = 0;
    loop
        invariant
            p <= t@.len(),
            rpc_response(t@, 0) == rpc_response(t@, p as int),
        decreases t@.len() - p,
    {
        if p >= t.len() {
            return Err(String::from_str("No methodResponse found"));
        }
        match &t[p] {
            XmlToken::Start(name) => {
                if str_eq(name.as_str(), "methodResponse") {
                    return parse_body(t, p + 1);
                }
                p = p + 1;
            },
            XmlToken::Eof => {
                return Err(String::from_str("No methodResponse found"));
            },
            XmlToken::Fail(m) => {
                return Err(m.clone());
            },
            _ => {
                p = p + 1;
            },
        }
    }
}

/// Reads a `<methodResponse>` from its tokens: the value of its params, or
/// an `Odoo` error with the reader's message or the fault's.
pub fn parse_response_tokens(t: &[XmlToken]) -> (res: Result<XmlRpcValue, AppError>)
    ensures
        match (res, rpc_response(t@, 0).0) {
            (Ok(v), Ok(w)) => v.deep() == w,
            (Err(e), Err(m)) => e is Odoo && e.text() == m,
            _ => false,
        },
{
    match parse_document(t) {
        Ok(v) => Ok(v),
        Err(m) => Err(AppError::Odoo(m)),
    }
}

/// Parses a `<methodResponse>` document: the value of its params, or an
/// `Odoo` error carrying the fault (`XML-RPC fault <code>: <string>`) or
/// what went wrong reading it.
pub fn parse_method_response(xml: &str) -> (res: Result<XmlRpcValue, AppError>)
    ensures
        match (res, rpc_response(xml_tokens(xml@), 0).0) {
            (Ok(v), Ok(w)) => v.deep() == w,
            (Err(e), Err(m)) => e is Odoo && e.text() == m,
            _ => false,
        },
{
    let toks = tokenize(xml);
    parse_response_tokens(toks.as_slice())
}

} // verus!
