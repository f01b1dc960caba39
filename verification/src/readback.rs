//! What the response reader makes of tokens laid out the way the writer
//! writes a value: the value itself.
use vstd::prelude::*;

use crate::decimal::float_kind;
use crate::text::{int_text, is_whitespace, lemma_int_text_chars, lemma_nat_text, lemma_parse_int_text, parse_int, trim};
use crate::xmlread::{
    XmlToken, last_key_index, lemma_last_key_index, member_insert, rpc_array, rpc_data, rpc_member, rpc_params,
    rpc_response, rpc_struct, rpc_text, rpc_typed, rpc_value, unescape_result,
};
use crate::xmlrpc::Val;

verus! {

// ── Token layouts ────────────────────────────────────────────────────

/// The token at `p` opens an element named `name`.
pub open spec fn is_start(t: Seq<XmlToken>, p: int, name: Seq<char>) -> bool {
    0 <= p < t.len() && (t[p] matches XmlToken::Start(n) && n@ == name)
}

/// The token at `p` closes an element named `name`.
pub open spec fn is_end(t: Seq<XmlToken>, p: int, name: Seq<char>) -> bool {
    0 <= p < t.len() && (t[p] matches XmlToken::End(n) && n@ == name)
}

/// The token at `p` is an empty element named `name`.
pub open spec fn is_empty_elem(t: Seq<XmlToken>, p: int, name: Seq<char>) -> bool {
    0 <= p < t.len() && (t[p] matches XmlToken::Empty(n) && n@ == name)
}

/// The token at `p` is text that unescapes to `x`.
pub open spec fn is_text(t: Seq<XmlToken>, p: int, x: Seq<char>) -> bool {
    0 <= p < t.len() && (t[p] matches XmlToken::Text(s) && unescape_result(s@) == Ok::<Seq<char>, Seq<char>>(x))
}

/// Where the text `x` written inside an element ends: an empty text gives no
/// token, any other text one.
pub open spec fn text_end(t: Seq<XmlToken>, p: int, x: Seq<char>) -> Option<int> {
    if x.len() == 0 {
        Some(p)
    } else if is_text(t, p, x) {
        Some(p + 1)
    } else {
        None
    }
}

/// Where `<tag>x</tag>` starting at `p` ends.
pub open spec fn elem_end(t: Seq<XmlToken>, p: int, tag: Seq<char>, x: Seq<char>) -> Option<int> {
    if is_start(t, p, tag) {
        match text_end(t, p + 1, x) {
            Some(q) => if is_end(t, q, tag) { Some(q + 1) } else { None },
            None => None,
        }
    } else {
        None
    }
}

/// Where the `<value>` element the writer writes for `v` ends, when the
/// tokens from `p` lay it out.
pub open spec fn value_end(t: Seq<XmlToken>, p: int, v: Val) -> Option<int>
    decreases v,
{
    if !is_start(t, p, "value"@) {
        None
    } else {
        let body = match v {
            Val::Int(i) => elem_end(t, p + 1, "int"@, int_text(i as int)),
            Val::Bool(b) => elem_end(t, p + 1, "boolean"@, if b { seq!['1'] } else { seq!['0'] }),
            Val::Double(d) => elem_end(t, p + 1, "double"@, d),
            Val::Str(s) => elem_end(t, p + 1, "string"@, s),
            Val::Nil => if is_empty_elem(t, p + 1, "nil"@) { Some(p + 2) } else { None },
            Val::Array(items) => if is_start(t, p + 1, "array"@) && is_start(t, p + 2, "data"@) {
                match items_end(t, p + 3, items) {
                    Some(q) => if is_end(t, q, "data"@) && is_end(t, q + 1, "array"@) { Some(q + 2) } else { None },
                    None => None,
                }
            } else {
                None
            },
            Val::Struct(ms) => if is_start(t, p + 1, "struct"@) {
                match members_end(t, p + 2, ms) {
                    Some(q) => if is_end(t, q, "struct"@) { Some(q + 1) } else { None },
                    None => None,
                }
            } else {
                None
            },
        };
        match body {
            Some(q) => if is_end(t, q, "value"@) { Some(q + 1) } else { None },
            None => None,
        }
    }
}

/// Where the values of `items`, one after the other from `p`, end.
pub open spec fn items_end(t: Seq<XmlToken>, p: int, items: Seq<Val>) -> Option<int>
    decreases items,
{
    if items.len() == 0 {
        Some(p)
    } else {
        match value_end(t, p, items[0]) {
            Some(q) => items_end(t, q, items.subrange(1, items.len() as int)),
            None => None,
        }
    }
}

/// Where the `<member>` elements of `ms`, one after the other from `p`, end.
pub open spec fn members_end(t: Seq<XmlToken>, p: int, ms: Seq<(Seq<char>, Val)>) -> Option<int>
    decreases ms,
{
    if ms.len() == 0 {
        Some(p)
    } else if is_start(t, p, "member"@) && is_start(t, p + 1, "name"@) {
        match text_end(t, p + 2, ms[0].0) {
            Some(q) => if is_end(t, q, "name"@) {
                match value_end(t, q + 1, ms[0].1) {
                    Some(r) => if is_end(t, r, "member"@) {
                        members_end(t, r + 1, ms.subrange(1, ms.len() as int))
                    } else {
                        None
                    },
                    None => None,
                }
            } else {
                None
            },
            None => None,
        }
    } else {
        None
    }
}

/// A `<methodResponse>` whose single param is the value `v`, laid out from
/// the first token.
pub open spec fn response_layout(t: Seq<XmlToken>, v: Val) -> bool {
    &&& is_start(t, 0, "methodResponse"@)
    &&& is_start(t, 1, "params"@)
    &&& is_start(t, 2, "param"@)
    &&& value_end(t, 3, v) is Some
}

// ── Values that read back ────────────────────────────────────────────

/// No key of `ms` is `k`.
pub open spec fn key_absent(ms: Seq<(Seq<char>, Val)>, k: Seq<char>) -> bool {
    forall|j: int| 0 <= j < ms.len() ==> (#[trigger] ms[j]).0 != k
}

/// A value the reader gives back as it was written: its doubles are number
/// texts without surrounding whitespace, and no struct names a key twice.
pub open spec fn reads_back(v: Val) -> bool
    decreases v,
{
    match v {
        Val::Double(d) => float_kind(d) is Some && trim(d) == d,
        Val::Array(items) => items_read_back(items),
        Val::Struct(ms) => members_read_back(ms),
        _ => true,
    }
}

pub open spec fn items_read_back(items: Seq<Val>) -> bool
    decreases items,
{
    items.len() > 0 ==> reads_back(items[0]) && items_read_back(items.subrange(1, items.len() as int))
}

pub open spec fn members_read_back(ms: Seq<(Seq<char>, Val)>) -> bool
    decreases ms,
{
    ms.len() > 0 ==> {
        &&& reads_back(ms[0].1)
        &&& key_absent(ms.subrange(1, ms.len() as int), ms[0].0)
        &&& members_read_back(ms.subrange(1, ms.len() as int))
    }
}

// ── Proofs ───────────────────────────────────────────────────────────

/// A laid-out value spans at least its `<value>`, one token and `</value>`;
/// laid-out lists never end before they start.
pub proof fn lemma_value_end_after(t: Seq<XmlToken>, p: int, v: Val)
    requires
        value_end(t, p, v) is Some,
    ensures
        p + 3 <= value_end(t, p, v)->Some_0 <= t.len(),
    decreases v,
{
    match v {
        Val::Array(items) => {
            lemma_items_end_after(t, p + 3, items);
        },
        Val::Struct(ms) => {
            lemma_members_end_after(t, p + 2, ms);
        },
        _ => {},
    }
}

pub proof fn lemma_items_end_after(t: Seq<XmlToken>, p: int, items: Seq<Val>)
    requires
        items_end(t, p, items) is Some,
    ensures
        p <= items_end(t, p, items)->Some_0,
    decreases items,
{
    if items.len() > 0 {
        lemma_value_end_after(t, p, items[0]);
        lemma_items_end_after(t, value_end(t, p, items[0])->Some_0, items.subrange(1, items.len() as int));
    }
}

pub proof fn lemma_members_end_after(t: Seq<XmlToken>, p: int, ms: Seq<(Seq<char>, Val)>)
    requires
        members_end(t, p, ms) is Some,
    ensures
        p <= members_end(t, p, ms)->Some_0,
    decreases ms,
{
    if ms.len() > 0 {
        let q = text_end(t, p + 2, ms[0].0)->Some_0;
        lemma_value_end_after(t, q + 1, ms[0].1);
        lemma_members_end_after(t, value_end(t, q + 1, ms[0].1)->Some_0 + 1, ms.subrange(1, ms.len() as int));
    }
}

proof fn lemma_tag_names()
    ensures
        "int"@ != "array"@,
        "struct"@ != "array"@,
        "int"@ != "struct"@,
        "boolean"@ != "array"@,
        "boolean"@ != "struct"@,
        "boolean"@ != "int"@,
        "boolean"@ != "i4"@,
        "boolean"@ != "i8"@,
        "double"@ != "array"@,
        "double"@ != "struct"@,
        "double"@ != "int"@,
        "double"@ != "i4"@,
        "double"@ != "i8"@,
        "double"@ != "boolean"@,
        "string"@ != "array"@,
        "string"@ != "struct"@,
        "string"@ != "int"@,
        "string"@ != "i4"@,
        "string"@ != "i8"@,
        "string"@ != "boolean"@,
        "string"@ != "double"@,
        "string"@ != "nil"@,
        "value"@ != "data"@,
        "value"@ != "name"@,
        "value"@ != "member"@,
        "param"@ != "value"@,
        seq!['0'] != "1"@,
        seq!['0'] != "true"@,
        seq!['1'] == "1"@,
{
    reveal_strlit("int");
    reveal_strlit("array");
    reveal_strlit("struct");
    reveal_strlit("boolean");
    reveal_strlit("i4");
    reveal_strlit("i8");
    reveal_strlit("double");
    reveal_strlit("string");
    reveal_strlit("nil");
    reveal_strlit("value");
    reveal_strlit("data");
    reveal_strlit("name");
    reveal_strlit("member");
    reveal_strlit("param");
    reveal_strlit("1");
    reveal_strlit("true");
    assert("boolean"@.len() == 7 && "i4"@.len() == 2 && "i8"@.len() == 2 && "int"@.len() == 3);
    assert("double"@.len() == 6 && "string"@.len() == 6 && "array"@.len() == 5 && "struct"@.len() == 6);
    assert("value"@.len() == 5 && "data"@.len() == 4 && "name"@.len() == 4 && "member"@.len() == 6);
    assert("nil"@.len() == 3 && "param"@.len() == 5 && "true"@.len() == 4 && "1"@.len() == 1);
    assert("int"@[0] != "nil"@[0]);
    assert("double"@[0] != "struct"@[0]);
    assert("string"@[3] != "struct"@[3]);
    assert("value"@[0] != "array"@[0]);
    assert("value"@[0] != "param"@[0]);
    assert(seq!['1'] =~= "1"@);
    assert(seq!['0'][0] != "1"@[0]);
}

/// A text with no whitespace at its ends is its own trim.
proof fn lemma_trim_plain(s: Seq<char>)
    requires
        s.len() > 0,
        !is_whitespace(s[0]),
        !is_whitespace(s.last()),
    ensures
        trim(s) == s,
{
}

/// Text read up to the end tag is the text laid out.
proof fn lemma_read_text(t: Seq<XmlToken>, p: int, x: Seq<char>, q: int, tag: Seq<char>)
    requires
        text_end(t, p, x) == Some(q),
        is_end(t, q, tag),
    ensures
        rpc_text(t, p, Seq::empty()) == (Ok::<Seq<char>, Seq<char>>(x), q + 1),
{
    if x.len() == 0 {
        assert(x =~= Seq::<char>::empty());
    } else {
        assert(Seq::<char>::empty() + x =~= x);
        assert(rpc_text(t, p + 1, Seq::empty() + x) == (Ok::<Seq<char>, Seq<char>>(x), q + 1));
    }
}

/// A `<tag>x</tag>` element's text, read by the typed-element step.
proof fn lemma_read_elem(t: Seq<XmlToken>, p: int, tag: Seq<char>, x: Seq<char>, q: int)
    requires
        elem_end(t, p, tag, x) == Some(q),
    ensures
        rpc_text(t, p + 1, Seq::empty()) == (Ok::<Seq<char>, Seq<char>>(x), q),
{
    let q0 = text_end(t, p + 1, x)->Some_0;
    lemma_read_text(t, p + 1, x, q0, tag);
}

/// A value laid out from `p` reads back from just after its `<value>` tag,
/// stopping at its `</value>`.
pub proof fn lemma_read_value(t: Seq<XmlToken>, p: int, v: Val)
    requires
        reads_back(v),
        value_end(t, p, v) is Some,
    ensures
        rpc_value(t, p + 1) == (Ok::<Val, Seq<char>>(v), value_end(t, p, v)->Some_0 - 1),
    decreases v,
{
    lemma_tag_names();
    let end = value_end(t, p, v)->Some_0;
    match v {
        Val::Int(i) => {
            let q = elem_end(t, p + 1, "int"@, int_text(i as int))->Some_0;
            lemma_read_elem(t, p + 1, "int"@, int_text(i as int), q);
            lemma_nat_text(if i < 0 { (-i) as nat } else { i as nat });
            lemma_int_text_chars(i as int);
            let s = int_text(i as int);
            assert(s.len() > 0);
            assert(is_whitespace(s[0]) == false);
            assert(is_whitespace(s.last()) == false) by {
                assert(s.last() == s[s.len() - 1]);
            }
            lemma_trim_plain(s);
            lemma_parse_int_text(i);
            assert(parse_int(trim(s)) == Some(i));
            assert(rpc_typed(t, "int"@, p + 2) == (Ok::<Val, Seq<char>>(v), q));
            assert(rpc_value(t, p + 1) == rpc_typed(t, "int"@, p + 2));
            assert(value_end(t, p, v) == Some(q + 1));
        },
        Val::Bool(b) => {
            let x = if b { seq!['1'] } else { seq!['0'] };
            let q = elem_end(t, p + 1, "boolean"@, x)->Some_0;
            lemma_read_elem(t, p + 1, "boolean"@, x, q);
            lemma_trim_plain(x);
            assert(rpc_typed(t, "boolean"@, p + 2) == (Ok::<Val, Seq<char>>(v), q));
            assert(rpc_value(t, p + 1) == rpc_typed(t, "boolean"@, p + 2));
            assert(value_end(t, p, v) == Some(q + 1));
        },
        Val::Double(d) => {
            let q = elem_end(t, p + 1, "double"@, d)->Some_0;
            lemma_read_elem(t, p + 1, "double"@, d, q);
            assert(rpc_typed(t, "double"@, p + 2) == (Ok::<Val, Seq<char>>(v), q));
            assert(rpc_value(t, p + 1) == rpc_typed(t, "double"@, p + 2));
            assert(value_end(t, p, v) == Some(q + 1));
        },
        Val::Str(s) => {
            let q = elem_end(t, p + 1, "string"@, s)->Some_0;
            lemma_read_elem(t, p + 1, "string"@, s, q);
            assert(rpc_typed(t, "string"@, p + 2) == (Ok::<Val, Seq<char>>(v), q));
            assert(rpc_value(t, p + 1) == rpc_typed(t, "string"@, p + 2));
            assert(value_end(t, p, v) == Some(q + 1));
        },
        Val::Nil => {
            reveal_strlit("nil");
            assert(rpc_value(t, p + 1) == (Ok::<Val, Seq<char>>(v), p + 2));
            assert(value_end(t, p, v) == Some(p + 3));
        },
        Val::Array(items) => {
            let q = items_end(t, p + 3, items)->Some_0;
            lemma_items_end_after(t, p + 3, items);
            lemma_read_data(t, p + 3, items, Seq::empty());
            assert(Seq::<Val>::empty() + items =~= items);
            assert(rpc_data(t, p + 3, Seq::empty()) == (Ok::<Seq<Val>, Seq<char>>(items), q + 1));
            assert(items_end(t, p + 3, items) == Some(q));
            assert(is_end(t, q + 1, "array"@));
            assert(p + 2 < q + 1 <= t.len());
            assert(is_start(t, p + 2, "data"@));
            assert(rpc_array(t, q + 1, items) == (Ok::<Val, Seq<char>>(Val::Array(items)), q + 2));
            assert(rpc_array(t, p + 2, Seq::empty()) == (Ok::<Val, Seq<char>>(Val::Array(items)), q + 2));
            assert(rpc_value(t, p + 1) == rpc_typed(t, "array"@, p + 2));
            assert(value_end(t, p, v) == Some(q + 3));
        },
        Val::Struct(ms) => {
            let q = members_end(t, p + 2, ms)->Some_0;
            lemma_members_end_after(t, p + 2, ms);
            lemma_read_struct(t, p + 2, ms, Seq::empty());
            assert(Seq::<(Seq<char>, Val)>::empty() + ms =~= ms);
            assert(rpc_typed(t, "struct"@, p + 2) == (Ok::<Val, Seq<char>>(v), q + 1));
            assert(rpc_value(t, p + 1) == rpc_typed(t, "struct"@, p + 2));
            assert(value_end(t, p, v) == Some(q + 2));
        },
    }
}

/// The values of `items` laid out from `p`, then `</data>`, read back after
/// the values already read.
pub proof fn lemma_read_data(t: Seq<XmlToken>, p: int, items: Seq<Val>, acc: Seq<Val>)
    requires
        items_read_back(items),
        items_end(t, p, items) is Some,
        is_end(t, items_end(t, p, items)->Some_0, "data"@),
    ensures
        rpc_data(t, p, acc) == (Ok::<Seq<Val>, Seq<char>>(acc + items), items_end(t, p, items)->Some_0 + 1),
    decreases items,
{
    lemma_tag_names();
    if items.len() == 0 {
        assert(acc + items =~= acc);
    } else {
        let v = items[0];
        let rest = items.subrange(1, items.len() as int);
        let q1 = value_end(t, p, v)->Some_0;
        lemma_value_end_after(t, p, v);
        lemma_read_value(t, p, v);
        assert(is_end(t, q1 - 1, "value"@));
        lemma_read_data(t, q1, rest, acc.push(v));
        assert(acc.push(v) + rest =~= acc + items);
        assert(rpc_data(t, q1 - 1, acc.push(v)) == rpc_data(t, q1, acc.push(v)));
    }
}

/// The members of `ms` laid out from `p`, then `</struct>`, read back after
/// the members already read.
pub proof fn lemma_read_struct(t: Seq<XmlToken>, p: int, ms: Seq<(Seq<char>, Val)>, acc: Seq<(Seq<char>, Val)>)
    requires
        members_read_back(ms),
        forall|j: int| 0 <= j < ms.len() ==> key_absent(acc, (#[trigger] ms[j]).0),
        members_end(t, p, ms) is Some,
        is_end(t, members_end(t, p, ms)->Some_0, "struct"@),
    ensures
        rpc_struct(t, p, acc) == (Ok::<Val, Seq<char>>(Val::Struct(acc + ms)), members_end(t, p, ms)->Some_0 + 1),
    decreases ms,
{
    lemma_tag_names();
    if ms.len() == 0 {
        assert(acc + ms =~= acc);
    } else {
        let (k, v) = ms[0];
        let rest = ms.subrange(1, ms.len() as int);
        let q0 = text_end(t, p + 2, k)->Some_0;
        lemma_read_text(t, p + 2, k, q0, "name"@);
        let r = value_end(t, q0 + 1, v)->Some_0;
        lemma_value_end_after(t, q0 + 1, v);
        lemma_read_value(t, q0 + 1, v);
        assert(is_end(t, r - 1, "value"@));
        assert(rpc_member(t, r - 1, k, v) == rpc_member(t, r, k, v));
        assert(rpc_member(t, r, k, v) == (Ok::<(Seq<char>, Val), Seq<char>>((k, v)), r + 1));
        assert(rpc_member(t, q0 + 1, k, Val::Nil) == (Ok::<(Seq<char>, Val), Seq<char>>((k, v)), r + 1));
        assert(rpc_member(t, p + 1, Seq::empty(), Val::Nil) == (Ok::<(Seq<char>, Val), Seq<char>>((k, v)), r + 1));
        assert(key_absent(acc, k)) by {
            assert(ms[0].0 == k);
        }
        lemma_last_key_index(acc, k);
        assert(last_key_index(acc, k) < 0) by {
            if last_key_index(acc, k) >= 0 {
                assert(acc[last_key_index(acc, k)].0 == k);
            }
        }
        assert(member_insert(acc, k, v) == acc.push((k, v)));
        let acc2 = acc.push((k, v));
        assert forall|j: int| 0 <= j < rest.len() implies key_absent(acc2, (#[trigger] rest[j]).0) by {
            assert(rest[j] == ms[j + 1]);
            assert(key_absent(acc, ms[j + 1].0));
            assert(rest[j].0 != k);
            assert forall|i: int| 0 <= i < acc2.len() implies (#[trigger] acc2[i]).0 != rest[j].0 by {
                if i < acc.len() {
                    assert(acc2[i] == acc[i]);
                }
            }
        }
        lemma_read_struct(t, r + 1, rest, acc2);
        assert(acc2 + rest =~= acc + ms);
    }
}

/// A response laid out around one value reads back as that value.
pub proof fn lemma_read_response(t: Seq<XmlToken>, v: Val)
    requires
        reads_back(v),
        response_layout(t, v),
    ensures
        rpc_response(t, 0).0 == Ok::<Val, Seq<char>>(v),
{
    lemma_tag_names();
    reveal_strlit("methodResponse");
    reveal_strlit("params");
    lemma_read_value(t, 3, v);
    assert(rpc_params(t, 3) == rpc_value(t, 4));
    assert(rpc_params(t, 2) == rpc_params(t, 3));
}

} // verus!
