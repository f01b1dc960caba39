//! XML-RPC values as Odoo exchanges them: the value model, its accessors,
//! the `<methodCall>` writer and the `<methodResponse>` reader.
//!
//! A `double` is held as the decimal text it travels as; a `struct` as its
//! members in order (a later member of the same name replaces the earlier).
use vstd::prelude::*;

use crate::error::AppError;
use crate::decimal::{float_trunc, float_trunc_of};
use crate::text::{from_chars, to_chars};

verus! {

/// Every value type of the XML-RPC protocol, plus `<nil/>` (Python `None`).
#[derive(Debug)]
pub enum XmlRpcValue {
    Int(i64),
    Bool(bool),
    /// A double, as its (trimmed) decimal text.
    Double(String),
    String(String),
    Array(Vec<XmlRpcValue>),
    /// Members in order. A name that occurs more than once reads as its last
    /// occurrence (what a map's later insert leaves); the reader keeps one
    /// member per name, a later member replacing an earlier one.
    Struct(Vec<(String, XmlRpcValue)>),
    Nil,
}

/// A value as plain data.
pub enum Val {
    Int(i64),
    Bool(bool),
    Double(Seq<char>),
    Str(Seq<char>),
    Array(Seq<Val>),
    Struct(Seq<(Seq<char>, Val)>),
    Nil,
}

impl XmlRpcValue {
    /// The plain data a value holds.
    pub open spec fn deep(self) -> Val
        decreases self,
    {
        match self {
            XmlRpcValue::Int(i) => Val::Int(i),
            XmlRpcValue::Bool(b) => Val::Bool(b),
            XmlRpcValue::Double(d) => Val::Double(d@),
            XmlRpcValue::String(s) => Val::Str(s@),
            XmlRpcValue::Array(a) => Val::Array(deep_items(a@)),
            XmlRpcValue::Struct(m) => Val::Struct(deep_members(m@)),
            XmlRpcValue::Nil => Val::Nil,
        }
    }
}

pub open spec fn deep_items(s: Seq<XmlRpcValue>) -> Seq<Val>
    decreases s,
{
    if s.len() == 0 {
        Seq::empty()
    } else {
        deep_items(s.drop_last()).push(s.last().deep())
    }
}

pub open spec fn deep_members(s: Seq<(String, XmlRpcValue)>) -> Seq<(Seq<char>, Val)>
    decreases s,
{
    if s.len() == 0 {
        Seq::empty()
    } else {
        deep_members(s.drop_last()).push((s.last().0@, s.last().1.deep()))
    }
}

} // verus!

verus! {

// ── Accessors ────────────────────────────────────────────────────────

/// A value read as an integer: integers as they are, doubles truncated
/// (saturating), booleans as 1/0.
pub open spec fn val_as_i64(v: Val) -> Option<i64> {
    match v {
        Val::Int(i) => Some(i),
        Val::Double(t) => Some(float_trunc(t)),
        Val::Bool(b) => Some(if b { 1i64 } else { 0i64 }),
        _ => None,
    }
}

/// A value read as a boolean: booleans as they are, integers as non-zero.
pub open spec fn val_as_bool(v: Val) -> Option<bool> {
    match v {
        Val::Bool(b) => Some(b),
        Val::Int(i) => Some(i != 0),
        _ => None,
    }
}

/// The value of the last member named `key`.
pub open spec fn member_lookup(ms: Seq<(Seq<char>, Val)>, key: Seq<char>) -> Option<Val>
    decreases ms.len(),
{
    if ms.len() == 0 {
        None
    } else if ms.last().0 == key {
        Some(ms.last().1)
    } else {
        member_lookup(ms.drop_last(), key)
    }
}

/// Odoo's many2one: `[id, "name"]`, or `false`/nil when unset.
pub open spec fn val_as_many2one(v: Val) -> Option<(i64, Seq<char>)> {
    match v {
        Val::Array(a) => if a.len() == 2 {
            match (val_as_i64(a[0]), a[1]) {
                (Some(id), Val::Str(name)) => Some((id, name)),
                _ => None,
            }
        } else {
            None
        },
        _ => None,
    }
}

pub proof fn lemma_deep_items(s: Seq<XmlRpcValue>)
    ensures
        deep_items(s).len() == s.len(),
        forall|i: int| 0 <= i < s.len() ==> deep_items(s)[i] == (#[trigger] s[i]).deep(),
    decreases s.len(),
{
    if s.len() > 0 {
        lemma_deep_items(s.drop_last());
        assert forall|i: int| 0 <= i < s.len() implies deep_items(s)[i] == (#[trigger] s[i]).deep() by {
            if i < s.len() - 1 {
                assert(s.drop_last()[i] == s[i]);
            }
        }
    }
}

pub proof fn lemma_deep_members(s: Seq<(String, XmlRpcValue)>)
    ensures
        deep_members(s).len() == s.len(),
        forall|i: int| 0 <= i < s.len() ==> deep_members(s)[i] == ((#[trigger] s[i]).0@, s[i].1.deep()),
    decreases s.len(),
{
    if s.len() > 0 {
        lemma_deep_members(s.drop_last());
        assert forall|i: int| 0 <= i < s.len() implies deep_members(s)[i] == ((#[trigger] s[i]).0@, s[i].1.deep()) by {
            if i < s.len() - 1 {
                assert(s.drop_last()[i] == s[i]);
            }
        }
    }
}

/// The last member named `key`, looked up in the members themselves.
pub fn struct_get<'a>(members: &'a Vec<(String, XmlRpcValue)>, key: &str) -> (res: Option<&'a XmlRpcValue>)
    ensures
        match (res, member_lookup(deep_members(members@), key@)) {
            (None, None) => true,
            (Some(v), Some(d)) => v.deep() == d,
            _ => false,
        },
{
    proof {
        lemma_deep_members(members@);
    }
    let mut i = members.len();
    assert(members@.take(i as int) == members@);
    while i > 0
        invariant
            i <= members@.len(),
            member_lookup(deep_members(members@), key@) == member_lookup(deep_members(members@.take(i as int)), key@),
        decreases i,
    {
        let ghost t = members@.take(i as int);
        proof {
            lemma_deep_members(t);
            assert(t.drop_last() == members@.take(i - 1));
            assert(deep_members(t).last() == (members@[i - 1].0@, members@[i - 1].1.deep()));
            assert(deep_members(t).drop_last() == deep_members(t.drop_last()));
        }
        if crate::timer::str_eq(members[i - 1].0.as_str(), key) {
            return Some(&members[i - 1].1);
        }
        i -= 1;
    }
    None
}

impl XmlRpcValue {
    pub fn as_i64(&self) -> (res: Option<i64>)
        ensures
            res == val_as_i64(self.deep()),
    {
        match self {
            XmlRpcValue::Int(v) => Some(*v),
            XmlRpcValue::Double(t) => {
                let cs = to_chars(t.as_str());
                Some(float_trunc_of(cs.as_slice()))
            },
            XmlRpcValue::Bool(b) => Some(if *b { 1 } else { 0 }),
            _ => None,
        }
    }

    pub fn as_str(&self) -> (res: Option<&str>)
        ensures
            match (res, self.deep()) {
                (Some(s), Val::Str(t)) => s@ == t,
                (None, Val::Str(_)) => false,
                (Some(_), _) => false,
                (None, _) => true,
            },
    {
        match self {
            XmlRpcValue::String(s) => Some(s.as_str()),
            _ => None,
        }
    }

    pub fn as_bool(&self) -> (res: Option<bool>)
        ensures
            res == val_as_bool(self.deep()),
    {
        match self {
            XmlRpcValue::Bool(b) => Some(*b),
            XmlRpcValue::Int(v) => Some(*v != 0),
            _ => None,
        }
    }

    pub fn as_array(&self) -> (res: Option<&Vec<XmlRpcValue>>)
        ensures
            match (res, self.deep()) {
                (Some(a), Val::Array(items)) => deep_items(a@) == items,
                (None, Val::Array(_)) => false,
                (Some(_), _) => false,
                (None, _) => true,
            },
    {
        match self {
            XmlRpcValue::Array(a) => Some(a),
            _ => None,
        }
    }

    pub fn as_struct(&self) -> (res: Option<&Vec<(String, XmlRpcValue)>>)
        ensures
            match (res, self.deep()) {
                (Some(m), Val::Struct(ms)) => deep_members(m@) == ms,
                (None, Val::Struct(_)) => false,
                (Some(_), _) => false,
                (None, _) => true,
            },
    {
        match self {
            XmlRpcValue::Struct(m) => Some(m),
            _ => None,
        }
    }

    /// Odoo quirk: a many2one field is either `[id, "name"]` or `false`;
    /// `None` for `false`, nil and anything malformed.
    pub fn as_many2one(&self) -> (res: Option<(i64, String)>)
        ensures
            match (res, val_as_many2one(self.deep())) {
                (None, None) => true,
                (Some((id, name)), Some((i, n))) => id == i && name@ == n,
                _ => false,
            },
    {
        match self {
            XmlRpcValue::Array(arr) => {
                proof {
                    lemma_deep_items(arr@);
                }
                if arr.len() != 2 {
                    return None;
                }
                let id = match arr[0].as_i64() {
                    Some(i) => i,
                    None => {
                        return None;
                    },
                };
                match arr[1].as_str() {
                    Some(s) => Some((id, s.to_string())),
                    None => None,
                }
            },
            _ => None,
        }
    }

    /// A deep copy.
    pub fn duplicate(&self) -> (res: XmlRpcValue)
        ensures
            res.deep() == self.deep(),
        decreases self,
    {
        match self {
            XmlRpcValue::Int(v) => XmlRpcValue::Int(*v),
            XmlRpcValue::Bool(b) => XmlRpcValue::Bool(*b),
            XmlRpcValue::Double(t) => XmlRpcValue::Double(t.clone()),
            XmlRpcValue::String(s) => XmlRpcValue::String(s.clone()),
            XmlRpcValue::Nil => XmlRpcValue::Nil,
            XmlRpcValue::Array(a) => {
                let mut out: Vec<XmlRpcValue> = Vec::new();
                let mut i: usize = 0;
                while i < a.len()
                    invariant
                        *self == XmlRpcValue::Array(*a),
                        i <= a@.len(),
                        deep_items(out@) == deep_items(a@.take(i as int)),
                    decreases a@.len() - i,
                {
                    proof {
                        broadcast use vstd::std_specs::vec::axiom_vec_decreases_to_view, vstd::seq::axiom_seq_index_decreases;
                        assert(decreases_to!(*a => a@));
                        assert(decreases_to!(a@ => a@[i as int]));
                        assert(decreases_to!(*self => (*self)->Array_0));
                        assert((*self)->Array_0 == *a);
                        assert(decreases_to!(*self => a@[i as int]));
                    }
                    let v = a[i].duplicate();
                    let ghost before = out@;
                    out.push(v);
                    assert(out@.drop_last() == before);
                    assert(a@.take(i + 1).drop_last() == a@.take(i as int));
                    i += 1;
                }
                assert(a@.take(a@.len() as int) == a@);
                XmlRpcValue::Array(out)
            },
            XmlRpcValue::Struct(m) => {
                let mut out: Vec<(String, XmlRpcValue)> = Vec::new();
                let mut i: usize = 0;
                while i < m.len()
                    invariant
                        *self == XmlRpcValue::Struct(*m),
                        i <= m@.len(),
                        deep_members(out@) == deep_members(m@.take(i as int)),
                    decreases m@.len() - i,
                {
                    proof {
                        broadcast use vstd::std_specs::vec::axiom_vec_decreases_to_view, vstd::seq::axiom_seq_index_decreases;
                        assert(decreases_to!(*m => m@));
                        assert(decreases_to!(m@ => m@[i as int]));
                        assert(decreases_to!(m@[i as int] => m@[i as int].1));
                        assert(decreases_to!(*self => (*self)->Struct_0));
                        assert((*self)->Struct_0 == *m);
                        assert(decreases_to!(*self => m@[i as int].1));
                    }
                    let v = m[i].1.duplicate();
                    let k = m[i].0.clone();
                    let ghost before = out@;
                    out.push((k, v));
                    assert(out@.drop_last() == before);
                    assert(m@.take(i + 1).drop_last() == m@.take(i as int));
                    i += 1;
                }
                assert(m@.take(m@.len() as int) == m@);
                XmlRpcValue::Struct(out)
            },
        }
    }
}

} // verus!
