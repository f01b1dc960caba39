//! What the client sends Odoo and how it reads the replies: endpoints, the
//! `execute_kw` envelope, search domains, value maps, and the readers that
//! turn reply values into ids, records and statuses.
use vstd::prelude::*;

use crate::error::AppError;
use crate::text::{from_chars, to_chars, trim_start, trim_start_chars};
use crate::xmlread::{debug_render, debug_text};
use crate::xmlrpc::{Val, XmlRpcValue, deep_items, deep_members, val_as_bool, val_as_i64};
use vstd::string::{StrSliceExecFns, StringExecFns};

verus! {

/// The endpoint that authenticates.
pub const COMMON_ENDPOINT: &'static str = "/xmlrpc/2/common";

/// The endpoint that runs model methods.
pub const OBJECT_ENDPOINT: &'static str = "/xmlrpc/2/object";

/// A logged-in connection, without its HTTP transport.
#[derive(Debug, Clone)]
pub struct OdooSession {
    pub url: String,
    pub database: String,
    pub username: String,
    pub password: String,
    pub uid: i64,
    pub employee_id: Option<i64>,
}

impl OdooSession {
    pub fn url(&self) -> (res: &str)
        ensures
            res@ == self.url@,
    {
        self.url.as_str()
    }

    pub fn database(&self) -> (res: &str)
        ensures
            res@ == self.database@,
    {
        self.database.as_str()
    }

    pub fn username(&self) -> (res: &str)
        ensures
            res@ == self.username@,
    {
        self.username.as_str()
    }

    pub fn uid(&self) -> (res: i64)
        ensures
            res == self.uid,
    {
        self.uid
    }

    pub fn employee_id(&self) -> (res: Option<i64>)
        ensures
            res == self.employee_id,
    {
        self.employee_id
    }
}

// ── Building values ──────────────────────────────────────────────────

pub proof fn lemma_deep_items_push(s: Seq<XmlRpcValue>, x: XmlRpcValue)
    ensures
        deep_items(s.push(x)) == deep_items(s).push(x.deep()),
{
    assert(s.push(x).drop_last() == s);
}

pub proof fn lemma_deep_members_push(s: Seq<(String, XmlRpcValue)>, x: (String, XmlRpcValue))
    ensures
        deep_members(s.push(x)) == deep_members(s).push((x.0@, x.1.deep())),
{
    assert(s.push(x).drop_last() == s);
}

/// A string value.
pub fn text_value(s: &str) -> (v: XmlRpcValue)
    ensures
        v.deep() == Val::Str(s@),
{
    XmlRpcValue::String(String::from_str(s))
}

/// A three-item array.
pub fn array3(a: XmlRpcValue, b: XmlRpcValue, c: XmlRpcValue) -> (v: XmlRpcValue)
    ensures
        v.deep() == Val::Array(seq![a.deep(), b.deep(), c.deep()]),
{
    let ghost (da, db, dc) = (a.deep(), b.deep(), c.deep());
    let mut items: Vec<XmlRpcValue> = Vec::new();
    proof {
        lemma_deep_items_push(items@, a);
    }
    items.push(a);
    proof {
        lemma_deep_items_push(items@, b);
    }
    items.push(b);
    proof {
        lemma_deep_items_push(items@, c);
    }
    items.push(c);
    assert(deep_items(items@) =~= seq![da, db, dc]);
    XmlRpcValue::Array(items)
}

/// A search clause `[field, op, value]`.
pub open spec fn clause(field: Seq<char>, op: Seq<char>, v: Val) -> Val {
    Val::Array(seq![Val::Str(field), Val::Str(op), v])
}

pub fn clause_value(field: &str, op: &str, v: XmlRpcValue) -> (c: XmlRpcValue)
    ensures
        c.deep() == clause(field@, op@, v.deep()),
{
    array3(text_value(field), text_value(op), v)
}

/// Integers as an array.
pub open spec fn int_items(ids: Seq<i64>) -> Seq<Val>
    decreases ids.len(),
{
    if ids.len() == 0 {
        Seq::empty()
    } else {
        int_items(ids.drop_last()).push(Val::Int(ids.last()))
    }
}

pub fn int_array(ids: &[i64]) -> (v: XmlRpcValue)
    ensures
        v.deep() == Val::Array(int_items(ids@)),
{
    let mut items: Vec<XmlRpcValue> = Vec::new();
    let mut i: usize = 0;
    while i < ids.len()
        invariant
            i <= ids@.len(),
            deep_items(items@) == int_items(ids@.take(i as int)),
        decreases ids@.len() - i,
    {
        proof {
            lemma_deep_items_push(items@, XmlRpcValue::Int(ids@[i as int]));
            assert(ids@.take(i + 1).drop_last() == ids@.take(i as int));
        }
        items.push(XmlRpcValue::Int(ids[i]));
        i += 1;
    }
    assert(ids@.take(ids@.len() as int) == ids@);
    XmlRpcValue::Array(items)
}

/// Strings as an array.
pub open spec fn text_items(names: Seq<Seq<char>>) -> Seq<Val>
    decreases names.len(),
{
    if names.len() == 0 {
        Seq::empty()
    } else {
        text_items(names.drop_last()).push(Val::Str(names.last()))
    }
}

pub fn text_array(names: &[String]) -> (v: XmlRpcValue)
    ensures
        v.deep() == Val::Array(text_items(names@.map_values(|s: String| s@))),
{
    let ghost views = names@.map_values(|s: String| s@);
    let mut items: Vec<XmlRpcValue> = Vec::new();
    let mut i: usize = 0;
    while i < names.len()
        invariant
            i <= names@.len(),
            views == names@.map_values(|s: String| s@),
            deep_items(items@) == text_items(views.take(i as int)),
        decreases names@.len() - i,
    {
        let v = XmlRpcValue::String(names[i].clone());
        proof {
            lemma_deep_items_push(items@, v);
            assert(views.take(i + 1).drop_last() == views.take(i as int));
        }
        items.push(v);
        i += 1;
    }
    assert(views.take(views.len() as int) == views);
    XmlRpcValue::Array(items)
}

// ── Endpoints and envelopes ──────────────────────────────────────────

/// `s` without its trailing `/` characters.
pub open spec fn trim_slashes(s: Seq<char>) -> Seq<char>
    decreases s.len(),
{
    if s.len() > 0 && s.last() == '/' {
        trim_slashes(s.drop_last())
    } else {
        s
    }
}

/// The full URL of an endpoint: the base URL without trailing slashes, then the path.
pub fn endpoint_url(url: &str, endpoint: &str) -> (res: String)
    ensures
        res@ == trim_slashes(url@) + endpoint@,
{
    let cs = to_chars(url);
    let mut n = cs.len();
    assert(cs@.take(n as int) == cs@);
    while n > 0 && cs[n - 1] == '/'
        invariant
            n <= cs@.len(),
            trim_slashes(url@) == trim_slashes(cs@.take(n as int)),
            cs@ == url@,
        decreases n,
    {
        assert(cs@.take(n as int).drop_last() == cs@.take(n - 1));
        n -= 1;
    }
    let mut out: Vec<char> = Vec::new();
    let mut i: usize = 0;
    while i < n
        invariant
            n <= cs@.len(),
            i <= n,
            out@ == cs@.take(i as int),
        decreases n - i,
    {
        out.push(cs[i]);
        assert(cs@.take(i + 1) == cs@.take(i as int).push(cs@[i as int]));
        i += 1;
    }
    let mut res = from_chars(out.as_slice());
    res.append(endpoint);
    res
}

/// The parameters of `authenticate`: database, login, password, an empty struct.
pub fn authenticate_params(database: &str, username: &str, password: &str) -> (ps: Vec<XmlRpcValue>)
    ensures
        deep_items(ps@) == seq![Val::Str(database@), Val::Str(username@), Val::Str(password@), Val::Struct(Seq::empty())],
{
    let mut ps: Vec<XmlRpcValue> = Vec::new();
    let a = text_value(database);
    let b = text_value(username);
    let c = text_value(password);
    let d = XmlRpcValue::Struct(Vec::new());
    let ghost (da, db, dc, dd) = (a.deep(), b.deep(), c.deep(), d.deep());
    proof {
        lemma_deep_items_push(ps@, a);
    }
    ps.push(a);
    proof {
        lemma_deep_items_push(ps@, b);
    }
    ps.push(b);
    proof {
        lemma_deep_items_push(ps@, c);
    }
    ps.push(c);
    proof {
        lemma_deep_items_push(ps@, d);
    }
    ps.push(d);
    assert(deep_items(ps@) =~= seq![da, db, dc, dd]);
    ps
}

/// What an `authenticate` reply means: a positive uid, or refused credentials.
pub open spec fn uid_of(reply: Val) -> Result<i64, Seq<char>> {
    match val_as_i64(reply) {
        None => Err("Authentication failed — check your credentials"@),
        Some(id) => if id <= 0 {
            Err("Authentication failed — invalid uid returned"@)
        } else {
            Ok(id)
        },
    }
}

/// Reads an `authenticate` reply. Odoo answers `false` to wrong credentials.
pub fn uid_from_reply(reply: &XmlRpcValue) -> (res: Result<i64, AppError>)
    ensures
        match (res, uid_of(reply.deep())) {
            (Ok(a), Ok(b)) => a == b,
            (Err(e), Err(m)) => e is Auth && e.text() == m,
            _ => false,
        },
{
    match reply.as_i64() {
        None => Err(AppError::Auth(String::from_str("Authentication failed — check your credentials"))),
        Some(id) => if id <= 0 {
            Err(AppError::Auth(String::from_str("Authentication failed — invalid uid returned")))
        } else {
            Ok(id)
        },
    }
}

/// The parameters of `execute_kw`: database, uid, password, model, method,
/// the positional arguments as an array, and the keyword arguments (an
/// empty struct when there are none).
pub open spec fn execute_kw_items(s: OdooSession, model: Seq<char>, method: Seq<char>, args: Seq<Val>, kwargs: Option<Val>) -> Seq<Val> {
    seq![
        Val::Str(s.database@),
        Val::Int(s.uid),
        Val::Str(s.password@),
        Val::Str(model),
        Val::Str(method),
        Val::Array(args),
        match kwargs {
            Some(k) => k,
            None => Val::Struct(Seq::empty()),
        },
    ]
}

/// The plain data of an optional value.
pub open spec fn deep_opt(o: Option<XmlRpcValue>) -> Option<Val> {
    match o {
        Some(v) => Some(v.deep()),
        None => None,
    }
}

pub fn execute_kw_params(
    session: &OdooSession,
    model: &str,
    method: &str,
    args: Vec<XmlRpcValue>,
    kwargs: Option<XmlRpcValue>,
) -> (ps: Vec<XmlRpcValue>)
    ensures
        deep_items(ps@) == execute_kw_items(*session, model@, method@, deep_items(args@), deep_opt(kwargs)),
{
    let ghost want = execute_kw_items(*session, model@, method@, deep_items(args@), deep_opt(kwargs));
    let kw = match kwargs {
        Some(k) => k,
        None => XmlRpcValue::Struct(Vec::new()),
    };
    let mut ps: Vec<XmlRpcValue> = Vec::new();
    push_value(&mut ps, XmlRpcValue::String(session.database.clone()));
    push_value(&mut ps, XmlRpcValue::Int(session.uid));
    push_value(&mut ps, XmlRpcValue::String(session.password.clone()));
    push_value(&mut ps, text_value(model));
    push_value(&mut ps, text_value(method));
    push_value(&mut ps, XmlRpcValue::Array(args));
    push_value(&mut ps, kw);
    assert(deep_items(ps@) =~= want);
    ps
}

/// Appends a value; the plain view grows by its plain data.
pub fn push_value(items: &mut Vec<XmlRpcValue>, v: XmlRpcValue)
    ensures
        deep_items(final(items)@) == deep_items(old(items)@).push(v.deep()),
{
    proof {
        lemma_deep_items_push(items@, v);
    }
    items.push(v);
}

/// Appends a member; the plain view grows by its name and plain data.
pub fn push_member(members: &mut Vec<(String, XmlRpcValue)>, name: &str, v: XmlRpcValue)
    ensures
        deep_members(final(members)@) == deep_members(old(members)@).push((name@, v.deep())),
{
    let m = (String::from_str(name), v);
    proof {
        lemma_deep_members_push(members@, m);
    }
    members.push(m);
}

} // verus!

verus! {

// ── Generic calls ────────────────────────────────────────────────────

/// The keyword arguments of `search_read`: the fields to read and, when
/// given, a record limit.
pub open spec fn search_read_kwargs_val(fields: Seq<Seq<char>>, limit: Option<i64>) -> Val {
    let base = seq![("fields"@, Val::Array(text_items(fields)))];
    Val::Struct(
        match limit {
            Some(l) => base.push(("limit"@, Val::Int(l))),
            None => base,
        },
    )
}

pub fn search_read_kwargs(fields: &[String], limit: Option<i64>) -> (kw: XmlRpcValue)
    ensures
        kw.deep() == search_read_kwargs_val(fields@.map_values(|s: String| s@), limit),
{
    let mut ms: Vec<(String, XmlRpcValue)> = Vec::new();
    push_member(&mut ms, "fields", text_array(fields));
    match limit {
        Some(l) => push_member(&mut ms, "limit", XmlRpcValue::Int(l)),
        None => {},
    }
    assert(deep_members(ms@) =~= search_read_kwargs_val(fields@.map_values(|s: String| s@), limit)->Struct_0);
    XmlRpcValue::Struct(ms)
}

/// What a `search_read` reply holds: its records; `false` means none.
pub open spec fn records_of(reply: Val) -> Result<Seq<Val>, Seq<char>> {
    match reply {
        Val::Array(items) => Ok(items),
        Val::Bool(false) => Ok(Seq::empty()),
        _ => Err("Unexpected search_read result: "@ + debug_text(reply)),
    }
}

/// Reads a `search_read` reply.
pub fn search_read_records(reply: XmlRpcValue) -> (res: Result<Vec<XmlRpcValue>, AppError>)
    ensures
        match (res, records_of(reply.deep())) {
            (Ok(a), Ok(b)) => deep_items(a@) == b,
            (Err(e), Err(m)) => e is Odoo && e.text() == m,
            _ => false,
        },
{
    match reply {
        XmlRpcValue::Array(items) => Ok(items),
        XmlRpcValue::Bool(false) => Ok(Vec::new()),
        other => {
            let mut m = String::from_str("Unexpected search_read result: ");
            m.append(debug_render(&other).as_str());
            Err(AppError::Odoo(m))
        },
    }
}

/// What a `create` reply holds: the new record's id.
pub open spec fn created_id_of(reply: Val) -> Result<i64, Seq<char>> {
    match val_as_i64(reply) {
        Some(id) => Ok(id),
        None => Err("create did not return an id: "@ + debug_text(reply)),
    }
}

pub fn created_id(reply: &XmlRpcValue) -> (res: Result<i64, AppError>)
    ensures
        match (res, created_id_of(reply.deep())) {
            (Ok(a), Ok(b)) => a == b,
            (Err(e), Err(m)) => e is Odoo && e.text() == m,
            _ => false,
        },
{
    match reply.as_i64() {
        Some(id) => Ok(id),
        None => {
            let mut m = String::from_str("create did not return an id: ");
            m.append(debug_render(reply).as_str());
            Err(AppError::Odoo(m))
        },
    }
}

/// Whether a `write` or `unlink` reply reports success (anything but a
/// true boolean or a non-zero integer counts as failure).
pub fn write_succeeded(reply: &XmlRpcValue) -> (b: bool)
    ensures
        b == (val_as_bool(reply.deep()) == Some(true)),
{
    match reply.as_bool() {
        Some(b) => b,
        None => false,
    }
}

/// The fields read for a task.
pub open spec fn task_field_names() -> Seq<Seq<char>> {
    seq![
        "id"@,
        "name"@,
        "project_id"@,
        "stage_id"@,
        "state"@,
        "description"@,
        "priority"@,
        "date_deadline"@,
        "write_date"@,
        "create_date"@,
        "user_ids"@,
        "parent_id"@,
        "color"@,
    ]
}

pub fn task_fields() -> (fs: Vec<String>)
    ensures
        fs@.map_values(|s: String| s@) == task_field_names(),
{
    let names: [&str; 13] = [
        "id",
        "name",
        "project_id",
        "stage_id",
        "state",
        "description",
        "priority",
        "date_deadline",
        "write_date",
        "create_date",
        "user_ids",
        "parent_id",
        "color",
    ];
    assert(names@.map_values(|s: &str| s@) =~= task_field_names());
    let mut fs: Vec<String> = Vec::new();
    let mut i: usize = 0;
    while i < 13
        invariant
            i <= 13,
            names@.map_values(|s: &str| s@) == task_field_names(),
            fs@.map_values(|s: String| s@) == task_field_names().take(i as int),
        decreases 13 - i,
    {
        let ghost before = fs@;
        fs.push(String::from_str(names[i]));
        assert(fs@.map_values(|s: String| s@) =~= before.map_values(|s: String| s@).push(names@[i as int]@));
        assert(task_field_names().take(i + 1) =~= task_field_names().take(i as int).push(task_field_names()[i as int]));
        i += 1;
    }
    assert(task_field_names().take(13) =~= task_field_names());
    fs
}

/// Names given as `&str` literals, as owned strings.
pub fn names_of(names: &[&str]) -> (fs: Vec<String>)
    ensures
        fs@.map_values(|s: String| s@) == names@.map_values(|s: &str| s@),
{
    let mut fs: Vec<String> = Vec::new();
    let mut i: usize = 0;
    while i < names.len()
        invariant
            i <= names@.len(),
            fs@.map_values(|s: String| s@) == names@.take(i as int).map_values(|s: &str| s@),
        decreases names@.len() - i,
    {
        let ghost before = fs@;
        fs.push(String::from_str(names[i]));
        assert(fs@.map_values(|s: String| s@) =~= before.map_values(|s: String| s@).push(names@[i as int]@));
        assert(names@.take(i + 1).map_values(|s: &str| s@) =~= names@.take(i as int).map_values(|s: &str| s@).push(
            names@[i as int]@,
        ));
        i += 1;
    }
    assert(names@.take(names@.len() as int) == names@);
    fs
}

} // verus!

verus! {

// ── Search domains ───────────────────────────────────────────────────

/// Tasks that are neither done nor cancelled.
pub open spec fn open_task_clause() -> Val {
    clause("state"@, "not in"@, Val::Array(seq![Val::Str("1_done"@), Val::Str("1_canceled"@)]))
}

fn open_task_clause_value() -> (c: XmlRpcValue)
    ensures
        c.deep() == open_task_clause(),
{
    let mut states: Vec<XmlRpcValue> = Vec::new();
    push_value(&mut states, text_value("1_done"));
    push_value(&mut states, text_value("1_canceled"));
    assert(deep_items(states@) =~= seq![Val::Str("1_done"@), Val::Str("1_canceled"@)]);
    clause_value("state", "not in", XmlRpcValue::Array(states))
}

/// A one-item integer array.
fn one_int(i: i64) -> (v: XmlRpcValue)
    ensures
        v.deep() == Val::Array(seq![Val::Int(i)]),
{
    let mut items: Vec<XmlRpcValue> = Vec::new();
    push_value(&mut items, XmlRpcValue::Int(i));
    assert(deep_items(items@) =~= seq![Val::Int(i)]);
    XmlRpcValue::Array(items)
}

/// Task search: by name (case-insensitive, when a query is given) and by project.
pub open spec fn search_tasks_domain_val(query: Seq<char>, project_id: Option<i64>) -> Seq<Val> {
    let by_name = if query.len() == 0 {
        Seq::empty()
    } else {
        seq![clause("name"@, "ilike"@, Val::Str(query))]
    };
    match project_id {
        Some(p) => by_name.push(clause("project_id"@, "="@, Val::Int(p))),
        None => by_name,
    }
}

pub fn search_tasks_domain(query: &str, project_id: Option<i64>) -> (d: Vec<XmlRpcValue>)
    ensures
        deep_items(d@) == search_tasks_domain_val(query@, project_id),
{
    let mut d: Vec<XmlRpcValue> = Vec::new();
    if query.unicode_len() > 0 {
        push_value(&mut d, clause_value("name", "ilike", text_value(query)));
    }
    match project_id {
        Some(p) => push_value(&mut d, clause_value("project_id", "=", XmlRpcValue::Int(p))),
        None => {},
    }
    assert(deep_items(d@) =~= search_tasks_domain_val(query@, project_id));
    d
}

/// Open tasks, restricted to the given projects and assignees when any are given.
pub open spec fn all_tasks_domain_val(project_ids: Seq<i64>, user_ids: Seq<i64>) -> Seq<Val> {
    let base = seq![open_task_clause()];
    let by_project = if project_ids.len() == 0 {
        base
    } else {
        base.push(clause("project_id"@, "in"@, Val::Array(int_items(project_ids))))
    };
    if user_ids.len() == 0 {
        by_project
    } else {
        by_project.push(clause("user_ids"@, "in"@, Val::Array(int_items(user_ids))))
    }
}

pub fn all_tasks_domain(project_ids: &[i64], user_ids: &[i64]) -> (d: Vec<XmlRpcValue>)
    ensures
        deep_items(d@) == all_tasks_domain_val(project_ids@, user_ids@),
{
    let mut d: Vec<XmlRpcValue> = Vec::new();
    push_value(&mut d, open_task_clause_value());
    if project_ids.len() > 0 {
        push_value(&mut d, clause_value("project_id", "in", int_array(project_ids)));
    }
    if user_ids.len() > 0 {
        push_value(&mut d, clause_value("user_ids", "in", int_array(user_ids)));
    }
    assert(deep_items(d@) =~= all_tasks_domain_val(project_ids@, user_ids@));
    d
}

/// Internal (non-share) users.
pub open spec fn users_domain_val() -> Seq<Val> {
    seq![clause("share"@, "="@, Val::Bool(false))]
}

pub fn users_domain() -> (d: Vec<XmlRpcValue>)
    ensures
        deep_items(d@) == users_domain_val(),
{
    let mut d: Vec<XmlRpcValue> = Vec::new();
    push_value(&mut d, clause_value("share", "=", XmlRpcValue::Bool(false)));
    assert(deep_items(d@) =~= users_domain_val());
    d
}

/// Open tasks assigned to `uid`.
pub open spec fn my_tasks_domain_val(uid: i64) -> Seq<Val> {
    seq![clause("user_ids"@, "in"@, Val::Array(seq![Val::Int(uid)])), open_task_clause()]
}

pub fn my_tasks_domain(uid: i64) -> (d: Vec<XmlRpcValue>)
    ensures
        deep_items(d@) == my_tasks_domain_val(uid),
{
    let mut d: Vec<XmlRpcValue> = Vec::new();
    push_value(&mut d, clause_value("user_ids", "in", one_int(uid)));
    push_value(&mut d, open_task_clause_value());
    assert(deep_items(d@) =~= my_tasks_domain_val(uid));
    d
}

/// The record with id `id`.
pub open spec fn id_domain_val(id: i64) -> Seq<Val> {
    seq![clause("id"@, "="@, Val::Int(id))]
}

pub fn id_domain(id: i64) -> (d: Vec<XmlRpcValue>)
    ensures
        deep_items(d@) == id_domain_val(id),
{
    let mut d: Vec<XmlRpcValue> = Vec::new();
    push_value(&mut d, clause_value("id", "=", XmlRpcValue::Int(id)));
    assert(deep_items(d@) =~= id_domain_val(id));
    d
}

/// The stages used by a project.
pub open spec fn stages_domain_val(project_id: i64) -> Seq<Val> {
    seq![clause("project_ids"@, "in"@, Val::Array(seq![Val::Int(project_id)]))]
}

pub fn stages_domain(project_id: i64) -> (d: Vec<XmlRpcValue>)
    ensures
        deep_items(d@) == stages_domain_val(project_id),
{
    let mut d: Vec<XmlRpcValue> = Vec::new();
    push_value(&mut d, clause_value("project_ids", "in", one_int(project_id)));
    assert(deep_items(d@) =~= stages_domain_val(project_id));
    d
}

/// The employee record of user `uid`.
pub open spec fn employee_domain_val(uid: i64) -> Seq<Val> {
    seq![clause("user_id"@, "="@, Val::Int(uid))]
}

pub fn employee_domain(uid: i64) -> (d: Vec<XmlRpcValue>)
    ensures
        deep_items(d@) == employee_domain_val(uid),
{
    let mut d: Vec<XmlRpcValue> = Vec::new();
    push_value(&mut d, clause_value("user_id", "=", XmlRpcValue::Int(uid)));
    assert(deep_items(d@) =~= employee_domain_val(uid));
    d
}

/// The employee's attendance that is still open (no check-out).
pub open spec fn open_attendance_domain_val(employee_id: i64) -> Seq<Val> {
    seq![clause("employee_id"@, "="@, Val::Int(employee_id)), clause("check_out"@, "="@, Val::Bool(false))]
}

pub fn open_attendance_domain(employee_id: i64) -> (d: Vec<XmlRpcValue>)
    ensures
        deep_items(d@) == open_attendance_domain_val(employee_id),
{
    let mut d: Vec<XmlRpcValue> = Vec::new();
    push_value(&mut d, clause_value("employee_id", "=", XmlRpcValue::Int(employee_id)));
    push_value(&mut d, clause_value("check_out", "=", XmlRpcValue::Bool(false)));
    assert(deep_items(d@) =~= open_attendance_domain_val(employee_id));
    d
}

/// The employee's attendances checked in at or after `since`.
pub open spec fn attendance_since_domain_val(employee_id: i64, since: Seq<char>) -> Seq<Val> {
    seq![clause("employee_id"@, "="@, Val::Int(employee_id)), clause("check_in"@, ">="@, Val::Str(since))]
}

pub fn attendance_since_domain(employee_id: i64, since: &str) -> (d: Vec<XmlRpcValue>)
    ensures
        deep_items(d@) == attendance_since_domain_val(employee_id, since@),
{
    let mut d: Vec<XmlRpcValue> = Vec::new();
    push_value(&mut d, clause_value("employee_id", "=", XmlRpcValue::Int(employee_id)));
    push_value(&mut d, clause_value("check_in", ">=", text_value(since)));
    assert(deep_items(d@) =~= attendance_since_domain_val(employee_id, since@));
    d
}

/// The employee's attendances checked in on `date` (`YYYY-MM-DD`).
pub open spec fn day_attendance_domain_val(employee_id: i64, date: Seq<char>) -> Seq<Val> {
    seq![
        clause("employee_id"@, "="@, Val::Int(employee_id)),
        clause("check_in"@, ">="@, Val::Str(date + " 00:00:00"@)),
        clause("check_in"@, "<="@, Val::Str(date + " 23:59:59"@)),
    ]
}

pub fn day_attendance_domain(employee_id: i64, date: &str) -> (d: Vec<XmlRpcValue>)
    ensures
        deep_items(d@) == day_attendance_domain_val(employee_id, date@),
{
    let mut start = String::from_str(date);
    start.append(" 00:00:00");
    let mut end = String::from_str(date);
    end.append(" 23:59:59");
    let mut d: Vec<XmlRpcValue> = Vec::new();
    push_value(&mut d, clause_value("employee_id", "=", XmlRpcValue::Int(employee_id)));
    push_value(&mut d, clause_value("check_in", ">=", XmlRpcValue::String(start)));
    push_value(&mut d, clause_value("check_in", "<=", XmlRpcValue::String(end)));
    assert(deep_items(d@) =~= day_attendance_domain_val(employee_id, date@));
    d
}

/// Whose timesheets: the linked employee's, or else the user's.
pub open spec fn owner_clause(s: OdooSession) -> Val {
    match s.employee_id {
        Some(e) => clause("employee_id"@, "="@, Val::Int(e)),
        None => clause("user_id"@, "="@, Val::Int(s.uid)),
    }
}

fn owner_clause_value(s: &OdooSession) -> (c: XmlRpcValue)
    ensures
        c.deep() == owner_clause(*s),
{
    match s.employee_id {
        Some(e) => clause_value("employee_id", "=", XmlRpcValue::Int(e)),
        None => clause_value("user_id", "=", XmlRpcValue::Int(s.uid)),
    }
}

/// The owner's timesheet lines dated from `start` to `end`.
pub open spec fn range_domain_val(s: OdooSession, start: Seq<char>, end: Seq<char>) -> Seq<Val> {
    seq![clause("date"@, ">="@, Val::Str(start)), clause("date"@, "<="@, Val::Str(end)), owner_clause(s)]
}

pub fn range_domain(s: &OdooSession, start: &str, end: &str) -> (d: Vec<XmlRpcValue>)
    ensures
        deep_items(d@) == range_domain_val(*s, start@, end@),
{
    let mut d: Vec<XmlRpcValue> = Vec::new();
    push_value(&mut d, clause_value("date", ">=", text_value(start)));
    push_value(&mut d, clause_value("date", "<=", text_value(end)));
    push_value(&mut d, owner_clause_value(s));
    assert(deep_items(d@) =~= range_domain_val(*s, start@, end@));
    d
}

/// The owner's timesheet lines on any of `dates`.
pub open spec fn dates_domain_val(s: OdooSession, dates: Seq<Seq<char>>) -> Seq<Val> {
    seq![clause("date"@, "in"@, Val::Array(text_items(dates))), owner_clause(s)]
}

pub fn dates_domain(s: &OdooSession, dates: &[String]) -> (d: Vec<XmlRpcValue>)
    ensures
        deep_items(d@) == dates_domain_val(*s, dates@.map_values(|x: String| x@)),
{
    let mut d: Vec<XmlRpcValue> = Vec::new();
    push_value(&mut d, clause_value("date", "in", text_array(dates)));
    push_value(&mut d, owner_clause_value(s));
    assert(deep_items(d@) =~= dates_domain_val(*s, dates@.map_values(|x: String| x@)));
    d
}

/// The owner's timesheet lines on `date`.
pub open spec fn day_lines_domain_val(s: OdooSession, date: Seq<char>) -> Seq<Val> {
    seq![clause("date"@, "="@, Val::Str(date)), owner_clause(s)]
}

pub fn day_lines_domain(s: &OdooSession, date: &str) -> (d: Vec<XmlRpcValue>)
    ensures
        deep_items(d@) == day_lines_domain_val(*s, date@),
{
    let mut d: Vec<XmlRpcValue> = Vec::new();
    push_value(&mut d, clause_value("date", "=", text_value(date)));
    push_value(&mut d, owner_clause_value(s));
    assert(deep_items(d@) =~= day_lines_domain_val(*s, date@));
    d
}

/// The owner's lines dated `since` or later whose description carries `marker`:
/// the runs some device publishes as live.
pub open spec fn live_lines_domain_val(s: OdooSession, marker: Seq<char>, since: Seq<char>) -> Seq<Val> {
    seq![clause("name"@, "like"@, Val::Str(marker)), clause("date"@, ">="@, Val::Str(since)), owner_clause(s)]
}

pub fn live_lines_domain(s: &OdooSession, marker: &str, since: &str) -> (d: Vec<XmlRpcValue>)
    ensures
        deep_items(d@) == live_lines_domain_val(*s, marker@, since@),
{
    let mut d: Vec<XmlRpcValue> = Vec::new();
    push_value(&mut d, clause_value("name", "like", text_value(marker)));
    push_value(&mut d, clause_value("date", ">=", text_value(since)));
    push_value(&mut d, owner_clause_value(s));
    assert(deep_items(d@) =~= live_lines_domain_val(*s, marker@, since@));
    d
}

/// The fields read for a timesheet line.
pub open spec fn line_field_names() -> Seq<Seq<char>> {
    seq!["id"@, "name"@, "task_id"@, "project_id"@, "unit_amount"@, "date"@]
}

pub fn line_fields() -> (fs: Vec<String>)
    ensures
        fs@.map_values(|s: String| s@) == line_field_names(),
{
    let names: [&str; 6] = ["id", "name", "task_id", "project_id", "unit_amount", "date"];
    let fs = names_of(&names);
    assert(names@.map_values(|s: &str| s@) =~= line_field_names());
    fs
}

} // verus!

verus! {

// ── Value maps ───────────────────────────────────────────────────────

/// A struct with one member.
pub fn single_member(key: &str, v: XmlRpcValue) -> (m: XmlRpcValue)
    ensures
        m.deep() == Val::Struct(seq![(key@, v.deep())]),
{
    let mut ms: Vec<(String, XmlRpcValue)> = Vec::new();
    push_member(&mut ms, key, v);
    assert(deep_members(ms@) =~= seq![(key@, v.deep())]);
    XmlRpcValue::Struct(ms)
}

/// The values of a new task.
pub open spec fn task_create_val(name: Seq<char>, project_id: i64) -> Val {
    Val::Struct(seq![("name"@, Val::Str(name)), ("project_id"@, Val::Int(project_id))])
}

pub fn task_create_values(name: &str, project_id: i64) -> (m: XmlRpcValue)
    ensures
        m.deep() == task_create_val(name@, project_id),
{
    let mut ms: Vec<(String, XmlRpcValue)> = Vec::new();
    push_member(&mut ms, "name", text_value(name));
    push_member(&mut ms, "project_id", XmlRpcValue::Int(project_id));
    assert(deep_members(ms@) =~= task_create_val(name@, project_id)->Struct_0);
    XmlRpcValue::Struct(ms)
}

/// A deadline as written to Odoo: the date, or `false` to clear it.
pub fn deadline_value(date_deadline: Option<&str>) -> (v: XmlRpcValue)
    ensures
        v.deep() == match date_deadline {
            Some(d) => Val::Str(d@),
            None => Val::Bool(false),
        },
{
    match date_deadline {
        Some(d) => text_value(d),
        None => XmlRpcValue::Bool(false),
    }
}

/// The values of a new timesheet line; `hours` is the decimal text of the
/// duration, and the employee is set when the session has one.
pub open spec fn line_val(s: OdooSession, task_id: i64, project_id: i64, description: Seq<char>, hours: Seq<char>, date: Seq<char>) -> Val {
    let base = seq![
        ("name"@, Val::Str(description)),
        ("task_id"@, Val::Int(task_id)),
        ("project_id"@, Val::Int(project_id)),
        ("unit_amount"@, Val::Double(hours)),
        ("date"@, Val::Str(date)),
    ];
    Val::Struct(
        match s.employee_id {
            Some(e) => base.push(("employee_id"@, Val::Int(e))),
            None => base,
        },
    )
}

pub fn line_values(s: &OdooSession, task_id: i64, project_id: i64, description: &str, hours: &str, date: &str) -> (m: XmlRpcValue)
    ensures
        m.deep() == line_val(*s, task_id, project_id, description@, hours@, date@),
{
    let mut ms: Vec<(String, XmlRpcValue)> = Vec::new();
    push_member(&mut ms, "name", text_value(description));
    push_member(&mut ms, "task_id", XmlRpcValue::Int(task_id));
    push_member(&mut ms, "project_id", XmlRpcValue::Int(project_id));
    push_member(&mut ms, "unit_amount", XmlRpcValue::Double(String::from_str(hours)));
    push_member(&mut ms, "date", text_value(date));
    match s.employee_id {
        Some(e) => push_member(&mut ms, "employee_id", XmlRpcValue::Int(e)),
        None => {},
    }
    assert(deep_members(ms@) =~= line_val(*s, task_id, project_id, description@, hours@, date@)->Struct_0);
    XmlRpcValue::Struct(ms)
}

/// The values that amend a line: description, duration, date.
pub open spec fn line_update_val(description: Seq<char>, hours: Seq<char>, date: Seq<char>) -> Val {
    Val::Struct(seq![("name"@, Val::Str(description)), ("unit_amount"@, Val::Double(hours)), ("date"@, Val::Str(date))])
}

pub fn line_update_values(description: &str, hours: &str, date: &str) -> (m: XmlRpcValue)
    ensures
        m.deep() == line_update_val(description@, hours@, date@),
{
    let mut ms: Vec<(String, XmlRpcValue)> = Vec::new();
    push_member(&mut ms, "name", text_value(description));
    push_member(&mut ms, "unit_amount", XmlRpcValue::Double(String::from_str(hours)));
    push_member(&mut ms, "date", text_value(date));
    assert(deep_members(ms@) =~= line_update_val(description@, hours@, date@)->Struct_0);
    XmlRpcValue::Struct(ms)
}

/// The values an edit of a line writes: description, task, project,
/// duration and date.
pub open spec fn line_edit_val(task_id: i64, project_id: i64, description: Seq<char>, hours: Seq<char>, date: Seq<char>) -> Val {
    Val::Struct(seq![
        ("name"@, Val::Str(description)),
        ("task_id"@, Val::Int(task_id)),
        ("project_id"@, Val::Int(project_id)),
        ("unit_amount"@, Val::Double(hours)),
        ("date"@, Val::Str(date)),
    ])
}

pub fn line_edit_values(task_id: i64, project_id: i64, description: &str, hours: &str, date: &str) -> (m: XmlRpcValue)
    ensures
        m.deep() == line_edit_val(task_id, project_id, description@, hours@, date@),
{
    let mut ms: Vec<(String, XmlRpcValue)> = Vec::new();
    push_member(&mut ms, "name", text_value(description));
    push_member(&mut ms, "task_id", XmlRpcValue::Int(task_id));
    push_member(&mut ms, "project_id", XmlRpcValue::Int(project_id));
    push_member(&mut ms, "unit_amount", XmlRpcValue::Double(String::from_str(hours)));
    push_member(&mut ms, "date", text_value(date));
    assert(deep_members(ms@) =~= line_edit_val(task_id, project_id, description@, hours@, date@)->Struct_0);
    XmlRpcValue::Struct(ms)
}

/// The values of a check-in: the employee and the time.
pub open spec fn check_in_val(employee_id: i64, now: Seq<char>) -> Val {
    Val::Struct(seq![("employee_id"@, Val::Int(employee_id)), ("check_in"@, Val::Str(now))])
}

pub fn check_in_values(employee_id: i64, now: &str) -> (m: XmlRpcValue)
    ensures
        m.deep() == check_in_val(employee_id, now@),
{
    let mut ms: Vec<(String, XmlRpcValue)> = Vec::new();
    push_member(&mut ms, "employee_id", XmlRpcValue::Int(employee_id));
    push_member(&mut ms, "check_in", text_value(now));
    assert(deep_members(ms@) =~= check_in_val(employee_id, now@)->Struct_0);
    XmlRpcValue::Struct(ms)
}


// ── The HTTP reply around an XML-RPC answer ─────────────────────────

/// A reply body the XML-RPC reader is given: after leading whitespace it
/// opens a tag.
pub open spec fn opens_tag(text: Seq<char>) -> bool {
    trim_start(text).len() > 0 && trim_start(text)[0] == '<'
}

pub fn looks_like_xml(text: &str) -> (b: bool)
    ensures
        b == opens_tag(text@),
{
    let cs = to_chars(text);
    let t = trim_start_chars(cs.as_slice());
    t.len() > 0 && t[0] == '<'
}

/// The error for a reply whose HTTP status is not a success: the status, the
/// endpoint and the body, verbatim.
pub fn http_failure(status: &str, url: &str, body: &str) -> (e: AppError)
    ensures
        e is Odoo && e.text() == "HTTP "@ + status@ + " from "@ + url@ + ": "@ + body@,
{
    let mut m = String::from_str("HTTP ");
    m.append(status);
    m.append(" from ");
    m.append(url);
    m.append(": ");
    m.append(body);
    AppError::Odoo(m)
}

/// The error for a successful reply that is not XML; `head` is the start of
/// the body shown to the user.
pub fn non_xml_reply(url: &str, head: &str) -> (e: AppError)
    ensures
        e is Odoo && e.text() == "Non-XML response from "@ + url@ + ": "@ + head@,
{
    let mut m = String::from_str("Non-XML response from ");
    m.append(url);
    m.append(": ");
    m.append(head);
    AppError::Odoo(m)
}

} // verus!

verus! {

// ── What a date domain selects ───────────────────────────────────────

/// A timesheet line as a domain sees it: its date (ISO text), the employee
/// it is booked on, and the user who owns it.
pub struct DateRecord {
    pub date: Seq<char>,
    pub employee_id: Option<i64>,
    pub user_id: i64,
}

/// Whether Odoo keeps `rec` under one `[field, op, value]` clause: dates
/// compare as their ISO text does, owners by equality; any other clause
/// keeps nothing.
pub open spec fn clause_admits(c: Val, rec: DateRecord) -> bool {
    match c {
        Val::Array(xs) => xs.len() == 3 && match (xs[0], xs[1], xs[2]) {
            (Val::Str(f), Val::Str(op), v) => if f == "date"@ {
                match v {
                    Val::Str(b) => if op == ">="@ {
                        !crate::models::text_lt(rec.date, b)
                    } else if op == "<="@ {
                        !crate::models::text_lt(b, rec.date)
                    } else if op == "<"@ {
                        crate::models::text_lt(rec.date, b)
                    } else if op == ">"@ {
                        crate::models::text_lt(b, rec.date)
                    } else if op == "="@ {
                        rec.date == b
                    } else {
                        false
                    },
                    _ => false,
                }
            } else if f == "employee_id"@ {
                op == "="@ && (v matches Val::Int(e) && rec.employee_id == Some(e))
            } else if f == "user_id"@ {
                op == "="@ && (v matches Val::Int(u) && rec.user_id == u)
            } else {
                false
            },
            _ => false,
        },
        _ => false,
    }
}

/// Whether Odoo keeps `rec` under a domain: every clause keeps it.
pub open spec fn domain_admits(d: Seq<Val>, rec: DateRecord) -> bool {
    forall|i: int| 0 <= i < d.len() ==> clause_admits(#[trigger] d[i], rec)
}

/// The field names and operators of date and owner clauses are distinct.
pub proof fn lemma_clause_names()
    ensures
        "date"@ != "employee_id"@,
        "date"@ != "user_id"@,
        "employee_id"@ != "user_id"@,
        ">="@ != "<="@,
        "<="@ != "<"@,
        ">="@ != "<"@,
        ">"@ != "<="@,
        ">"@ != ">="@,
        "="@ != ">="@,
        "="@ != "<="@,
{
    reveal_strlit("date");
    reveal_strlit("employee_id");
    reveal_strlit("user_id");
    reveal_strlit(">=");
    reveal_strlit("<=");
    reveal_strlit("<");
    reveal_strlit(">");
    reveal_strlit("=");
    assert("date"@.len() == 4 && "employee_id"@.len() == 11 && "user_id"@.len() == 7);
    assert(">="@.len() == 2 && "<="@.len() == 2 && "<"@.len() == 1 && ">"@.len() == 1 && "="@.len() == 1);
    assert(">="@[0] != "<="@[0]);
}

} // verus!
