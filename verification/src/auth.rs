//! Signing in: which database to use when none is given, the statuses the
//! login screen shows, and how failures are reported.
use vstd::prelude::*;

use crate::error::AppError;
use crate::odoo::{OdooSession, trim_slashes};
use crate::sync::{lowercase_of, to_lowercase};
use crate::text::{contains_seq, find_chars, split_chars, split_on, to_chars, from_chars};
use crate::xmlrpc::{Val, XmlRpcValue, deep_items, lemma_deep_items};
use vstd::string::{StrSliceExecFns, StringExecFns};

verus! {

#[derive(Debug, Clone)]
pub struct LoginResponse {
    pub uid: i64,
    pub username: String,
}

#[derive(Debug, Clone)]
pub struct AuthStatus {
    pub authenticated: bool,
    pub username: Option<String>,
    pub url: Option<String>,
}

#[derive(Debug, Clone)]
pub struct SavedConnection {
    pub url: Option<String>,
    pub username: Option<String>,
}

/// The host `reqwest::Url::parse` finds in `url`, when it parses and has one.
pub uninterp spec fn url_host_of(url: Seq<char>) -> Option<Seq<char>>;

/// `reqwest::Url::parse(url)` then `host_str()`: the URL's host, or `None`
/// when the text does not parse or names no host.
#[verifier::external_body]
fn url_host(url: &str) -> (h: Option<String>)
    ensures
        match (h, url_host_of(url@)) {
            (Some(a), Some(b)) => a@ == b,
            (None, None) => true,
            _ => false,
        },
{
    reqwest::Url::parse(url).ok().and_then(|u| u.host_str().map(|s| s.to_string()))
}

/// The first label of a host with at least two labels; otherwise empty.
pub open spec fn subdomain_of(host: Option<Seq<char>>) -> Seq<char> {
    match host {
        Some(h) => if split_on(h, '.').len() >= 2 {
            split_on(h, '.')[0]
        } else {
            Seq::empty()
        },
        None => Seq::empty(),
    }
}

/// The subdomain of a host (its first label when it has at least two).
pub fn subdomain_of_host(host: Option<&str>) -> (res: String)
    ensures
        res@ == subdomain_of(match host {
            Some(h) => Some(h@),
            None => None,
        }),
{
    match host {
        Some(h) => {
            let cs = to_chars(h);
            let parts = split_chars(cs.as_slice(), '.');
            if parts.len() >= 2 {
                from_chars(parts[0].as_slice())
            } else {
                String::new()
            }
        },
        None => String::new(),
    }
}

/// The subdomain of an instance URL (`mycompany` for `https://mycompany.odoo.com`).
pub fn extract_subdomain(url: &str) -> (res: String)
    ensures
        res@ == subdomain_of(url_host_of(url@)),
{
    match url_host(url) {
        Some(h) => subdomain_of_host(Some(h.as_str())),
        None => subdomain_of_host(None),
    }
}

/// The index of the first database whose lowercased name contains `key`.
pub open spec fn first_containing(dbs: Seq<Seq<char>>, key: Seq<char>) -> Option<int>
    decreases dbs.len(),
{
    if dbs.len() == 0 {
        None
    } else {
        match first_containing(dbs.drop_last(), key) {
            Some(i) => Some(i),
            None => if contains_seq(lowercase_of(dbs.last()), key) {
                Some(dbs.len() - 1)
            } else {
                None
            },
        }
    }
}

proof fn lemma_first_containing_prefix(dbs: Seq<Seq<char>>, key: Seq<char>, j: int)
    requires
        0 <= j <= dbs.len(),
        first_containing(dbs.take(j), key) is Some,
    ensures
        first_containing(dbs, key) == first_containing(dbs.take(j), key),
    decreases dbs.len(),
{
    if j < dbs.len() {
        assert(dbs.drop_last().take(j) == dbs.take(j));
        lemma_first_containing_prefix(dbs.drop_last(), key, j);
    } else {
        assert(dbs.take(j) == dbs);
    }
}

/// The database to use from a list: the only one; else the first whose name
/// contains the subdomain (ignoring case); else the first.
pub open spec fn database_choice(dbs: Seq<Seq<char>>, subdomain: Seq<char>) -> Option<Seq<char>> {
    if dbs.len() == 0 {
        None
    } else if dbs.len() == 1 {
        Some(dbs[0])
    } else {
        match first_containing(dbs, lowercase_of(subdomain)) {
            Some(i) => Some(dbs[i]),
            None => Some(dbs[0]),
        }
    }
}

pub fn choose_database(dbs: &[String], subdomain: &str) -> (res: Option<String>)
    ensures
        match (res, database_choice(dbs@.map_values(|s: String| s@), subdomain@)) {
            (Some(a), Some(b)) => a@ == b,
            (None, None) => true,
            _ => false,
        },
{
    let ghost names = dbs@.map_values(|s: String| s@);
    if dbs.len() == 0 {
        return None;
    }
    if dbs.len() == 1 {
        return Some(dbs[0].clone());
    }
    let key_s = to_lowercase(subdomain);
    let key = to_chars(key_s.as_str());
    let mut i: usize = 0;
    assert(names.take(0) =~= Seq::<Seq<char>>::empty());
    while i < dbs.len()
        invariant
            i <= dbs@.len(),
            names == dbs@.map_values(|s: String| s@),
            key@ == lowercase_of(subdomain@),
            first_containing(names.take(i as int), key@) is None,
        decreases dbs@.len() - i,
    {
        let lower = to_lowercase(dbs[i].as_str());
        let l = to_chars(lower.as_str());
        assert(names.take(i + 1).drop_last() == names.take(i as int));
        assert(names.take(i + 1).last() == dbs@[i as int]@);
        if find_chars(l.as_slice(), key.as_slice()).is_some() {
            proof {
                lemma_first_containing_prefix(names, key@, i + 1);
            }
            return Some(dbs[i].clone());
        }
        i += 1;
    }
    assert(names.take(names.len() as int) == names);
    Some(dbs[0].clone())
}

/// What is left when neither the server nor the instance names a database:
/// the subdomain, if there is one.
pub fn database_fallback(subdomain: &str) -> (res: Result<String, AppError>)
    ensures
        subdomain@.len() > 0 ==> (res matches Ok(d) && d@ == subdomain@),
        subdomain@.len() == 0 ==> (res matches Err(e) && e is Auth && e.text()
            == "Could not detect database. Please enter it manually."@),
{
    if subdomain.unicode_len() > 0 {
        Ok(String::from_str(subdomain))
    } else {
        Err(AppError::Auth(String::from_str("Could not detect database. Please enter it manually.")))
    }
}

/// The text items of an array, in order.
pub open spec fn text_values(items: Seq<Val>) -> Seq<Seq<char>>
    decreases items.len(),
{
    if items.len() == 0 {
        Seq::empty()
    } else {
        let before = text_values(items.drop_last());
        match items.last() {
            Val::Str(s) => before.push(s),
            _ => before,
        }
    }
}

/// The database names in a `db.list` reply (an array of strings); anything
/// else lists none.
pub fn database_names(reply: &XmlRpcValue) -> (res: Vec<String>)
    ensures
        res@.map_values(|s: String| s@) == match reply.deep() {
            Val::Array(items) => text_values(items),
            _ => Seq::empty(),
        },
{
    let mut res: Vec<String> = Vec::new();
    match reply {
        XmlRpcValue::Array(arr) => {
            proof {
                lemma_deep_items(arr@);
            }
            let mut i: usize = 0;
            while i < arr.len()
                invariant
                    i <= arr@.len(),
                    deep_items(arr@).len() == arr@.len(),
                    forall|j: int| 0 <= j < arr@.len() ==> deep_items(arr@)[j] == (#[trigger] arr@[j]).deep(),
                    res@.map_values(|s: String| s@) == text_values(deep_items(arr@).take(i as int)),
                decreases arr@.len() - i,
            {
                let ghost before = res@;
                assert(deep_items(arr@).take(i + 1).drop_last() == deep_items(arr@).take(i as int));
                match arr[i].as_str() {
                    Some(s) => {
                        res.push(String::from_str(s));
                        assert(res@.map_values(|s: String| s@) =~= before.map_values(|s: String| s@).push(s@));
                    },
                    None => {},
                }
                i += 1;
            }
            assert(deep_items(arr@).take(arr@.len() as int) == deep_items(arr@));
        },
        _ => {},
    }
    res
}

/// The instance URL as the client keeps it: without trailing slashes.
pub fn normalize_url(url: &str) -> (res: String)
    ensures
        res@ == trim_slashes(url@),
{
    let cs = to_chars(url);
    let mut n = cs.len();
    assert(cs@.take(n as int) == cs@);
    while n > 0 && cs[n - 1] == '/'
        invariant
            n <= cs@.len(),
            trim_slashes(url@) == trim_slashes(cs@.take(n as int)),
            cs@ == url@,
        decreases n,
    {
        assert(cs@.take(n as int).drop_last() == cs@.take(n - 1));
        n -= 1;
    }
    let mut out: Vec<char> = Vec::new();
    let mut i: usize = 0;
    while i < n
        invariant
            n <= cs@.len(),
            i <= n,
            out@ == cs@.take(i as int),
        decreases n - i,
    {
        out.push(cs[i]);
        assert(cs@.take(i + 1) == cs@.take(i as int).push(cs@[i as int]));
        i += 1;
    }
    from_chars(out.as_slice())
}

/// A failed connection, as the login screen reports it.
pub fn login_failed(e: &AppError) -> (r: AppError)
    ensures
        r is Auth && r.text() == "Login failed: "@ + e.text(),
{
    let mut m = String::from_str("Login failed: ");
    m.append(e.message().as_str());
    AppError::Auth(m)
}

/// A password the OS store refused to keep.
pub fn credentials_not_saved(e: &AppError) -> (r: AppError)
    ensures
        r is Keyring && r.text() == "Failed to save credentials: "@ + e.text(),
{
    let mut m = String::from_str("Failed to save credentials: ");
    m.append(e.message().as_str());
    AppError::Keyring(m)
}

/// The sign-in status of a session, if there is one.
pub fn auth_status(session: Option<&OdooSession>) -> (s: AuthStatus)
    ensures
        s.authenticated == session.is_some(),
        match session {
            Some(c) => (s.username matches Some(u) && u@ == c.username@) && (s.url matches Some(l) && l@ == c.url@),
            None => s.username is None && s.url is None,
        },
{
    match session {
        Some(c) => AuthStatus {
            authenticated: true,
            username: Some(c.username.clone()),
            url: Some(c.url.clone()),
        },
        None => AuthStatus { authenticated: false, username: None, url: None },
    }
}

/// What a successful sign-in reports.
pub fn login_response(session: &OdooSession) -> (r: LoginResponse)
    ensures
        r.uid == session.uid,
        r.username@ == session.username@,
{
    LoginResponse { uid: session.uid, username: session.username.clone() }
}

// ── The hosted-database probe ────────────────────────────────────────

/// The text of an optional string, as plain data.
pub open spec fn opt_text(o: Option<String>) -> Option<Seq<char>> {
    match o {
        Some(x) => Some(x@),
        None => None,
    }
}

/// What `serde_json` reads in a JSON-RPC reply: the items of its `result`
/// array, each as its text when it is a JSON string; `None` when the reply is
/// not JSON or holds no `result` array.
pub uninterp spec fn json_result_items(text: Seq<char>) -> Option<Seq<Option<Seq<char>>>>;

/// `serde_json::from_str::<Value>(text)`, then `get("result")`, `as_array()`
/// and each item's `as_str()`. The result is a function of the text alone.
#[verifier::external_body]
fn reply_result_items(text: &str) -> (r: Option<Vec<Option<String>>>)
    ensures
        match (r, json_result_items(text@)) {
            (Some(v), Some(s)) => v@.map_values(|o: Option<String>| opt_text(o)) == s,
            (None, None) => true,
            _ => false,
        },
{
    let v: serde_json::Value = serde_json::from_str(text).ok()?;
    let items = v.get("result")?.as_array()?;
    Some(items.iter().map(|x| x.as_str().map(String::from)).collect())
}

/// The texts among the items, in order.
pub open spec fn texts_of(items: Seq<Option<Seq<char>>>) -> Seq<Seq<char>>
    decreases items.len(),
{
    if items.len() == 0 {
        Seq::empty()
    } else {
        match items.last() {
            Some(x) => texts_of(items.drop_last()).push(x),
            None => texts_of(items.drop_last()),
        }
    }
}

/// The database names of a reply's items: its strings, in order.
pub fn reply_names(items: &[Option<String>]) -> (res: Vec<String>)
    ensures
        res@.map_values(|s: String| s@) == texts_of(items@.map_values(|o: Option<String>| opt_text(o))),
{
    let ghost src = items@.map_values(|o: Option<String>| opt_text(o));
    let mut res: Vec<String> = Vec::new();
    let mut i: usize = 0;
    while i < items.len()
        invariant
            i <= items@.len(),
            src == items@.map_values(|o: Option<String>| opt_text(o)),
            res@.map_values(|s: String| s@) == texts_of(src.take(i as int)),
        decreases items@.len() - i,
    {
        proof {
            assert(src.take(i + 1).drop_last() =~= src.take(i as int));
            assert(src.take(i + 1).last() == opt_text(items@[i as int]));
        }
        match &items[i] {
            Some(x) => {
                res.push(x.clone());
                proof {
                    assert(res@.map_values(|s: String| s@) =~= texts_of(src.take(i as int)).push(x@));
                }
            },
            None => {},
        }
        i += 1;
    }
    assert(src.take(items@.len() as int) =~= src);
    res
}

/// The database a hosted server's `/web/database/list` reply names: `None`
/// when the reply holds no `result` array, else the choice among its names
/// (the only one; else the first containing the subdomain; else the first).
pub fn database_from_reply(text: &str, subdomain: &str) -> (db: Option<String>)
    ensures
        match json_result_items(text@) {
            None => db is None,
            Some(items) => match (db, database_choice(texts_of(items), subdomain@)) {
                (Some(a), Some(b)) => a@ == b,
                (None, None) => true,
                _ => false,
            },
        },
{
    match reply_result_items(text) {
        None => None,
        Some(items) => {
            let names = reply_names(items.as_slice());
            choose_database(names.as_slice(), subdomain)
        },
    }
}

} // verus!
