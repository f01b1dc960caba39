//! Records as Odoo returns them from `search_read`, read into the models the
//! app works with. A struct's field is looked up by name; Odoo writes an
//! unset field as `false`.
use vstd::prelude::*;

use crate::error::AppError;
use crate::sync::{lowercase_of, to_lowercase};
use crate::text::to_chars;
use crate::xmlrpc::{
    Val, XmlRpcValue, deep_items, deep_members, lemma_deep_items, member_lookup, struct_get,
    val_as_i64, val_as_many2one,
};
use vstd::string::StringExecFns;

verus! {

// ── Fields ───────────────────────────────────────────────────────────

/// A text field; empty when missing or not a string.
pub open spec fn field_text(ms: Seq<(Seq<char>, Val)>, key: Seq<char>) -> Seq<char> {
    match member_lookup(ms, key) {
        Some(Val::Str(s)) => s,
        _ => Seq::empty(),
    }
}

/// An optional text field: `None` for `false`, nil, a missing field or a non-string.
pub open spec fn field_opt_text(ms: Seq<(Seq<char>, Val)>, key: Seq<char>) -> Option<Seq<char>> {
    match member_lookup(ms, key) {
        Some(Val::Str(s)) => Some(s),
        _ => None,
    }
}

/// An integer field (a double is truncated, a boolean is 1/0).
pub open spec fn field_int(ms: Seq<(Seq<char>, Val)>, key: Seq<char>) -> Option<i64> {
    match member_lookup(ms, key) {
        Some(v) => val_as_i64(v),
        None => None,
    }
}

/// A many2one field `(id, name)`.
pub open spec fn field_many2one(ms: Seq<(Seq<char>, Val)>, key: Seq<char>) -> Option<(i64, Seq<char>)> {
    match member_lookup(ms, key) {
        Some(v) => val_as_many2one(v),
        None => None,
    }
}

pub fn get_string(map: &Vec<(String, XmlRpcValue)>, key: &str) -> (res: String)
    ensures
        res@ == field_text(deep_members(map@), key@),
{
    match struct_get(map, key) {
        Some(XmlRpcValue::String(s)) => s.clone(),
        _ => String::new(),
    }
}

pub fn get_opt_string(map: &Vec<(String, XmlRpcValue)>, key: &str) -> (res: Option<String>)
    ensures
        match (res, field_opt_text(deep_members(map@), key@)) {
            (Some(a), Some(b)) => a@ == b,
            (None, None) => true,
            _ => false,
        },
{
    match struct_get(map, key) {
        Some(XmlRpcValue::String(s)) => Some(s.clone()),
        _ => None,
    }
}

/// The message of a missing or unreadable integer field.
pub open spec fn missing_int_text(key: Seq<char>) -> Seq<char> {
    "Missing or invalid int field '"@ + key + "'"@
}

pub fn get_i64(map: &Vec<(String, XmlRpcValue)>, key: &str) -> (res: Result<i64, AppError>)
    ensures
        match (res, field_int(deep_members(map@), key@)) {
            (Ok(a), Some(b)) => a == b,
            (Err(e), None) => e is Odoo && e.text() == missing_int_text(key@),
            _ => false,
        },
{
    let v = match struct_get(map, key) {
        Some(v) => v.as_i64(),
        None => None,
    };
    match v {
        Some(n) => Ok(n),
        None => {
            let mut m = String::from_str("Missing or invalid int field '");
            m.append(key);
            m.append("'");
            Err(AppError::Odoo(m))
        },
    }
}

pub fn get_many2one(map: &Vec<(String, XmlRpcValue)>, key: &str) -> (res: Option<(i64, String)>)
    ensures
        match (res, field_many2one(deep_members(map@), key@)) {
            (Some((i, n)), Some((j, m))) => i == j && n@ == m,
            (None, None) => true,
            _ => false,
        },
{
    match struct_get(map, key) {
        Some(v) => v.as_many2one(),
        None => None,
    }
}

// ── Models ───────────────────────────────────────────────────────────

#[derive(Debug, Clone)]
pub struct OdooProject {
    pub id: i64,
    pub name: String,
}

#[derive(Debug, Clone)]
pub struct OdooEmployee {
    pub id: i64,
    pub name: String,
}

/// A record read as `(id, name)`: a struct with an integer `id`.
pub open spec fn id_name_of(v: Val, what: Seq<char>) -> Result<(i64, Seq<char>), Seq<char>> {
    match v {
        Val::Struct(ms) => match field_int(ms, "id"@) {
            Some(id) => Ok((id, field_text(ms, "name"@))),
            None => Err(missing_int_text("id"@)),
        },
        _ => Err("Expected struct for "@ + what),
    }
}

fn id_name_from(val: &XmlRpcValue, what: &str) -> (res: Result<(i64, String), AppError>)
    ensures
        match (res, id_name_of(val.deep(), what@)) {
            (Ok((i, n)), Ok((j, m))) => i == j && n@ == m,
            (Err(e), Err(m)) => e is Odoo && e.text() == m,
            _ => false,
        },
{
    match val {
        XmlRpcValue::Struct(map) => {
            let id = get_i64(map, "id")?;
            Ok((id, get_string(map, "name")))
        },
        _ => {
            let mut m = String::from_str("Expected struct for ");
            m.append(what);
            Err(AppError::Odoo(m))
        },
    }
}

impl OdooProject {
    pub fn try_from(val: &XmlRpcValue) -> (res: Result<OdooProject, AppError>)
        ensures
            match (res, id_name_of(val.deep(), "OdooProject"@)) {
                (Ok(p), Ok((i, n))) => p.id == i && p.name@ == n,
                (Err(e), Err(m)) => e is Odoo && e.text() == m,
                _ => false,
            },
    {
        let (id, name) = id_name_from(val, "OdooProject")?;
        Ok(OdooProject { id, name })
    }
}

impl OdooEmployee {
    pub fn try_from(val: &XmlRpcValue) -> (res: Result<OdooEmployee, AppError>)
        ensures
            match (res, id_name_of(val.deep(), "OdooEmployee"@)) {
                (Ok(p), Ok((i, n))) => p.id == i && p.name@ == n,
                (Err(e), Err(m)) => e is Odoo && e.text() == m,
                _ => false,
            },
    {
        let (id, name) = id_name_from(val, "OdooEmployee")?;
        Ok(OdooEmployee { id, name })
    }
}

/// The records that read as `(id, name)`, in order; the others are skipped.
pub open spec fn id_names_of(records: Seq<Val>, what: Seq<char>) -> Seq<(i64, Seq<char>)>
    decreases records.len(),
{
    if records.len() == 0 {
        Seq::empty()
    } else {
        let before = id_names_of(records.drop_last(), what);
        match id_name_of(records.last(), what) {
            Ok(p) => before.push(p),
            Err(_) => before,
        }
    }
}

/// The projects among `records`; records that do not read are skipped.
pub fn parse_projects(records: &[XmlRpcValue]) -> (res: Vec<OdooProject>)
    ensures
        res@.map_values(|p: OdooProject| (p.id, p.name@)) == id_names_of(deep_items(records@), "OdooProject"@),
{
    proof {
        lemma_deep_items(records@);
    }
    let mut res: Vec<OdooProject> = Vec::new();
    let mut i: usize = 0;
    while i < records.len()
        invariant
            i <= records@.len(),
            deep_items(records@).len() == records@.len(),
            forall|j: int| 0 <= j < records@.len() ==> deep_items(records@)[j] == (#[trigger] records@[j]).deep(),
            res@.map_values(|p: OdooProject| (p.id, p.name@)) == id_names_of(deep_items(records@).take(i as int), "OdooProject"@),
        decreases records@.len() - i,
    {
        let ghost before = res@;
        proof {
            assert(deep_items(records@).take(i + 1).drop_last() == deep_items(records@).take(i as int));
        }
        match OdooProject::try_from(&records[i]) {
            Ok(p) => {
                res.push(p);
                assert(res@.map_values(|p: OdooProject| (p.id, p.name@)) =~= before.map_values(
                    |p: OdooProject| (p.id, p.name@),
                ).push((res@.last().id, res@.last().name@)));
            },
            Err(_) => {},
        }
        i += 1;
    }
    assert(deep_items(records@).take(records@.len() as int) == deep_items(records@));
    res
}

/// The employees among `records`; records that do not read are skipped.
pub fn parse_employees(records: &[XmlRpcValue]) -> (res: Vec<OdooEmployee>)
    ensures
        res@.map_values(|p: OdooEmployee| (p.id, p.name@)) == id_names_of(deep_items(records@), "OdooEmployee"@),
{
    proof {
        lemma_deep_items(records@);
    }
    let mut res: Vec<OdooEmployee> = Vec::new();
    let mut i: usize = 0;
    while i < records.len()
        invariant
            i <= records@.len(),
            deep_items(records@).len() == records@.len(),
            forall|j: int| 0 <= j < records@.len() ==> deep_items(records@)[j] == (#[trigger] records@[j]).deep(),
            res@.map_values(|p: OdooEmployee| (p.id, p.name@)) == id_names_of(deep_items(records@).take(i as int), "OdooEmployee"@),
        decreases records@.len() - i,
    {
        let ghost before = res@;
        proof {
            assert(deep_items(records@).take(i + 1).drop_last() == deep_items(records@).take(i as int));
        }
        match OdooEmployee::try_from(&records[i]) {
            Ok(p) => {
                res.push(p);
                assert(res@.map_values(|p: OdooEmployee| (p.id, p.name@)) =~= before.map_values(
                    |p: OdooEmployee| (p.id, p.name@),
                ).push((res@.last().id, res@.last().name@)));
            },
            Err(_) => {},
        }
        i += 1;
    }
    assert(deep_items(records@).take(records@.len() as int) == deep_items(records@));
    res
}

} // verus!

verus! {

// ── Tasks and timesheet lines ────────────────────────────────────────

pub open spec fn opt_text_view(o: Option<String>) -> Option<Seq<char>> {
    match o {
        Some(s) => Some(s@),
        None => None,
    }
}

pub open spec fn opt_pair_view(o: Option<(i64, String)>) -> Option<(i64, Seq<char>)> {
    match o {
        Some((i, s)) => Some((i, s@)),
        None => None,
    }
}

pub open spec fn opt_ids_view(o: Option<Vec<i64>>) -> Option<Seq<i64>> {
    match o {
        Some(v) => Some(v@),
        None => None,
    }
}

/// The fields of a task other than its hour counts.
#[derive(Debug, Clone)]
pub struct TaskFields {
    pub id: i64,
    pub name: String,
    pub project_id: Option<(i64, String)>,
    pub stage_id: Option<(i64, String)>,
    pub stage_name: Option<String>,
    pub state: Option<String>,
    pub kanban_state: Option<String>,
    pub description: Option<String>,
    pub priority: Option<String>,
    pub date_deadline: Option<String>,
    pub write_date: Option<String>,
    pub create_date: Option<String>,
    pub user_ids: Option<Vec<i64>>,
    pub parent_id: Option<(i64, String)>,
    pub color: Option<i64>,
}

pub struct TaskView {
    pub id: i64,
    pub name: Seq<char>,
    pub project_id: Option<(i64, Seq<char>)>,
    pub stage_id: Option<(i64, Seq<char>)>,
    pub stage_name: Option<Seq<char>>,
    pub state: Option<Seq<char>>,
    pub kanban_state: Option<Seq<char>>,
    pub description: Option<Seq<char>>,
    pub priority: Option<Seq<char>>,
    pub date_deadline: Option<Seq<char>>,
    pub write_date: Option<Seq<char>>,
    pub create_date: Option<Seq<char>>,
    pub user_ids: Option<Seq<i64>>,
    pub parent_id: Option<(i64, Seq<char>)>,
    pub color: Option<i64>,
}

impl View for TaskFields {
    type V = TaskView;

    open spec fn view(&self) -> TaskView {
        TaskView {
            id: self.id,
            name: self.name@,
            project_id: opt_pair_view(self.project_id),
            stage_id: opt_pair_view(self.stage_id),
            stage_name: opt_text_view(self.stage_name),
            state: opt_text_view(self.state),
            kanban_state: opt_text_view(self.kanban_state),
            description: opt_text_view(self.description),
            priority: opt_text_view(self.priority),
            date_deadline: opt_text_view(self.date_deadline),
            write_date: opt_text_view(self.write_date),
            create_date: opt_text_view(self.create_date),
            user_ids: opt_ids_view(self.user_ids),
            parent_id: opt_pair_view(self.parent_id),
            color: self.color,
        }
    }
}

/// The integers among `items`, in order.
pub open spec fn int_values(items: Seq<Val>) -> Seq<i64>
    decreases items.len(),
{
    if items.len() == 0 {
        Seq::empty()
    } else {
        let before = int_values(items.drop_last());
        match val_as_i64(items.last()) {
            Some(i) => before.push(i),
            None => before,
        }
    }
}

/// Assignees: the integers of a many2many array, `None` when there are none.
pub open spec fn user_ids_of(ms: Seq<(Seq<char>, Val)>) -> Option<Seq<i64>> {
    match member_lookup(ms, "user_ids"@) {
        Some(Val::Array(items)) => if int_values(items).len() == 0 {
            None
        } else {
            Some(int_values(items))
        },
        _ => None,
    }
}

/// The stage's name: from the stage pair, else a plain `stage_id` or `stage_name` text.
pub open spec fn stage_name_of(ms: Seq<(Seq<char>, Val)>) -> Option<Seq<char>> {
    match field_many2one(ms, "stage_id"@) {
        Some((_, n)) => Some(n),
        None => match field_opt_text(ms, "stage_id"@) {
            Some(s) => Some(s),
            None => field_opt_text(ms, "stage_name"@),
        },
    }
}

/// A task record read into its fields.
pub open spec fn task_of(v: Val) -> Result<TaskView, Seq<char>> {
    match v {
        Val::Struct(ms) => match field_int(ms, "id"@) {
            Some(id) => Ok(
                TaskView {
                    id,
                    name: field_text(ms, "name"@),
                    project_id: field_many2one(ms, "project_id"@),
                    stage_id: field_many2one(ms, "stage_id"@),
                    stage_name: stage_name_of(ms),
                    state: field_opt_text(ms, "state"@),
                    kanban_state: field_opt_text(ms, "kanban_state"@),
                    description: field_opt_text(ms, "description"@),
                    priority: field_opt_text(ms, "priority"@),
                    date_deadline: field_opt_text(ms, "date_deadline"@),
                    write_date: field_opt_text(ms, "write_date"@),
                    create_date: field_opt_text(ms, "create_date"@),
                    user_ids: user_ids_of(ms),
                    parent_id: field_many2one(ms, "parent_id"@),
                    color: field_int(ms, "color"@),
                },
            ),
            None => Err(missing_int_text("id"@)),
        },
        _ => Err("Expected struct for OdooTask"@),
    }
}

fn task_user_ids(map: &Vec<(String, XmlRpcValue)>) -> (res: Option<Vec<i64>>)
    ensures
        opt_ids_view(res) == user_ids_of(deep_members(map@)),
{
    match struct_get(map, "user_ids") {
        Some(XmlRpcValue::Array(arr)) => {
            proof {
                lemma_deep_items(arr@);
            }
            let mut ids: Vec<i64> = Vec::new();
            let mut i: usize = 0;
            while i < arr.len()
                invariant
                    i <= arr@.len(),
                    deep_items(arr@).len() == arr@.len(),
                    forall|j: int| 0 <= j < arr@.len() ==> deep_items(arr@)[j] == (#[trigger] arr@[j]).deep(),
                    ids@ == int_values(deep_items(arr@).take(i as int)),
                decreases arr@.len() - i,
            {
                assert(deep_items(arr@).take(i + 1).drop_last() == deep_items(arr@).take(i as int));
                match arr[i].as_i64() {
                    Some(n) => ids.push(n),
                    None => {},
                }
                i += 1;
            }
            assert(deep_items(arr@).take(arr@.len() as int) == deep_items(arr@));
            if ids.len() == 0 {
                None
            } else {
                Some(ids)
            }
        },
        _ => None,
    }
}

impl TaskFields {
    /// Reads a task record; its hour counts are read separately.
    pub fn try_from(val: &XmlRpcValue) -> (res: Result<TaskFields, AppError>)
        ensures
            match (res, task_of(val.deep())) {
                (Ok(t), Ok(w)) => t@ == w,
                (Err(e), Err(m)) => e is Odoo && e.text() == m,
                _ => false,
            },
    {
        let map = match val {
            XmlRpcValue::Struct(m) => m,
            _ => {
                return Err(AppError::Odoo(String::from_str("Expected struct for OdooTask")));
            },
        };
        let stage = get_many2one(map, "stage_id");
        let stage_name = match &stage {
            Some((_, n)) => Some(n.clone()),
            None => match get_opt_string(map, "stage_id") {
                Some(s) => Some(s),
                None => get_opt_string(map, "stage_name"),
            },
        };
        let user_ids = task_user_ids(map);
        let color = match struct_get(map, "color") {
            Some(v) => v.as_i64(),
            None => None,
        };
        let id = get_i64(map, "id")?;
        let t = TaskFields {
            id,
            name: get_string(map, "name"),
            project_id: get_many2one(map, "project_id"),
            stage_id: stage,
            stage_name,
            state: get_opt_string(map, "state"),
            kanban_state: get_opt_string(map, "kanban_state"),
            description: get_opt_string(map, "description"),
            priority: get_opt_string(map, "priority"),
            date_deadline: get_opt_string(map, "date_deadline"),
            write_date: get_opt_string(map, "write_date"),
            create_date: get_opt_string(map, "create_date"),
            user_ids,
            parent_id: get_many2one(map, "parent_id"),
            color,
        };
        Ok(t)
    }
}

/// The fields of a timesheet line other than its duration.
#[derive(Debug, Clone)]
pub struct LineFields {
    pub id: i64,
    pub name: String,
    pub task_id: Option<(i64, String)>,
    pub project_id: Option<(i64, String)>,
    pub date: String,
}

pub struct LineView {
    pub id: i64,
    pub name: Seq<char>,
    pub task_id: Option<(i64, Seq<char>)>,
    pub project_id: Option<(i64, Seq<char>)>,
    pub date: Seq<char>,
}

impl View for LineFields {
    type V = LineView;

    open spec fn view(&self) -> LineView {
        LineView {
            id: self.id,
            name: self.name@,
            task_id: opt_pair_view(self.task_id),
            project_id: opt_pair_view(self.project_id),
            date: self.date@,
        }
    }
}

/// A timesheet line record read into its fields.
pub open spec fn line_of(v: Val) -> Result<LineView, Seq<char>> {
    match v {
        Val::Struct(ms) => match field_int(ms, "id"@) {
            Some(id) => Ok(
                LineView {
                    id,
                    name: field_text(ms, "name"@),
                    task_id: field_many2one(ms, "task_id"@),
                    project_id: field_many2one(ms, "project_id"@),
                    date: field_text(ms, "date"@),
                },
            ),
            None => Err(missing_int_text("id"@)),
        },
        _ => Err("Expected struct for OdooTimesheetEntry"@),
    }
}

impl LineFields {
    /// Reads a timesheet line record; its duration is read separately.
    pub fn try_from(val: &XmlRpcValue) -> (res: Result<LineFields, AppError>)
        ensures
            match (res, line_of(val.deep())) {
                (Ok(t), Ok(w)) => t@ == w,
                (Err(e), Err(m)) => e is Odoo && e.text() == m,
                _ => false,
            },
    {
        let map = match val {
            XmlRpcValue::Struct(m) => m,
            _ => {
                return Err(AppError::Odoo(String::from_str("Expected struct for OdooTimesheetEntry")));
            },
        };
        let id = get_i64(map, "id")?;
        Ok(
            LineFields {
                id,
                name: get_string(map, "name"),
                task_id: get_many2one(map, "task_id"),
                project_id: get_many2one(map, "project_id"),
                date: get_string(map, "date"),
            },
        )
    }
}

} // verus!

verus! {

// ── Replies read as plain data ───────────────────────────────────────

/// The employee id in the first record, when it is a struct whose `id` is an integer.
pub open spec fn employee_of(records: Seq<Val>) -> Option<i64> {
    if records.len() == 0 {
        None
    } else {
        match records[0] {
            Val::Struct(ms) => match member_lookup(ms, "id"@) {
                Some(Val::Int(e)) => Some(e),
                _ => None,
            },
            _ => None,
        }
    }
}

pub fn employee_from_records(records: &[XmlRpcValue]) -> (res: Option<i64>)
    ensures
        res == employee_of(deep_items(records@)),
{
    proof {
        lemma_deep_items(records@);
    }
    if records.len() == 0 {
        return None;
    }
    match &records[0] {
        XmlRpcValue::Struct(map) => match struct_get(map, "id") {
            Some(XmlRpcValue::Int(e)) => Some(*e),
            _ => None,
        },
        _ => None,
    }
}

/// `(id, name)` of each struct record with a positive id (a missing id reads
/// as 0, a missing name as empty), in order.
pub open spec fn named_ids_of(records: Seq<Val>) -> Seq<(i64, Seq<char>)>
    decreases records.len(),
{
    if records.len() == 0 {
        Seq::empty()
    } else {
        let before = named_ids_of(records.drop_last());
        match records.last() {
            Val::Struct(ms) => {
                let id = match field_int(ms, "id"@) {
                    Some(i) => i,
                    None => 0,
                };
                if id > 0 {
                    before.push((id, field_text(ms, "name"@)))
                } else {
                    before
                }
            },
            _ => before,
        }
    }
}

pub fn named_ids(records: &[XmlRpcValue]) -> (res: Vec<(i64, String)>)
    ensures
        res@.map_values(|p: (i64, String)| (p.0, p.1@)) == named_ids_of(deep_items(records@)),
{
    proof {
        lemma_deep_items(records@);
    }
    let mut res: Vec<(i64, String)> = Vec::new();
    let mut i: usize = 0;
    while i < records.len()
        invariant
            i <= records@.len(),
            deep_items(records@).len() == records@.len(),
            forall|j: int| 0 <= j < records@.len() ==> deep_items(records@)[j] == (#[trigger] records@[j]).deep(),
            res@.map_values(|p: (i64, String)| (p.0, p.1@)) == named_ids_of(deep_items(records@).take(i as int)),
        decreases records@.len() - i,
    {
        let ghost before = res@;
        assert(deep_items(records@).take(i + 1).drop_last() == deep_items(records@).take(i as int));
        match &records[i] {
            XmlRpcValue::Struct(map) => {
                let id = match struct_get(map, "id") {
                    Some(v) => match v.as_i64() {
                        Some(n) => n,
                        None => 0,
                    },
                    None => 0,
                };
                if id > 0 {
                    let name = match struct_get(map, "name") {
                        Some(v) => match v.as_str() {
                            Some(s) => String::from_str(s),
                            None => String::new(),
                        },
                        None => String::new(),
                    };
                    res.push((id, name));
                    assert(res@.map_values(|p: (i64, String)| (p.0, p.1@)) =~= before.map_values(
                        |p: (i64, String)| (p.0, p.1@),
                    ).push((res@.last().0, res@.last().1@)));
                }
            },
            _ => {},
        }
        i += 1;
    }
    assert(deep_items(records@).take(records@.len() as int) == deep_items(records@));
    res
}

/// A task's stage, state and kanban state from the first record read back.
pub open spec fn task_state_of(records: Seq<Val>) -> (Option<(i64, Seq<char>)>, Option<Seq<char>>, Option<Seq<char>>) {
    if records.len() == 0 {
        (None, None, None)
    } else {
        match records[0] {
            Val::Struct(ms) => (
                field_many2one(ms, "stage_id"@),
                field_opt_text(ms, "state"@),
                field_opt_text(ms, "kanban_state"@),
            ),
            _ => (None, None, None),
        }
    }
}

pub fn task_state_from_records(records: &[XmlRpcValue]) -> (res: (Option<(i64, String)>, Option<String>, Option<String>))
    ensures
        (opt_pair_view(res.0), opt_text_view(res.1), opt_text_view(res.2)) == task_state_of(deep_items(records@)),
{
    proof {
        lemma_deep_items(records@);
    }
    if records.len() == 0 {
        return (None, None, None);
    }
    match &records[0] {
        XmlRpcValue::Struct(map) => (
            get_many2one(map, "stage_id"),
            get_opt_string(map, "state"),
            get_opt_string(map, "kanban_state"),
        ),
        _ => (None, None, None),
    }
}

} // verus!

verus! {

// ── Ordering by name ─────────────────────────────────────────────────

/// `a` sorts before `b` as Rust orders strings: character by character
/// (UTF-8 byte order is code point order), a prefix first.
pub open spec fn text_lt(a: Seq<char>, b: Seq<char>) -> bool
    decreases a.len(),
{
    if a.len() == 0 {
        b.len() > 0
    } else if b.len() == 0 {
        false
    } else if a[0] != b[0] {
        (a[0] as u32) < (b[0] as u32)
    } else {
        text_lt(a.drop_first(), b.drop_first())
    }
}

/// No text sorts before itself.
pub proof fn lemma_text_lt_irreflexive(a: Seq<char>)
    ensures
        !text_lt(a, a),
    decreases a.len(),
{
    if a.len() > 0 {
        lemma_text_lt_irreflexive(a.drop_first());
    }
}

/// Of two different texts, exactly one sorts before the other.
pub proof fn lemma_text_lt_total(a: Seq<char>, b: Seq<char>)
    ensures
        text_lt(a, b) ==> !text_lt(b, a),
        a != b ==> text_lt(a, b) || text_lt(b, a),
    decreases a.len(),
{
    if a.len() == 0 {
        if b.len() == 0 {
            assert(a =~= b);
        }
    } else if b.len() > 0 && a[0] == b[0] {
        lemma_text_lt_total(a.drop_first(), b.drop_first());
        if a.drop_first() == b.drop_first() {
            assert forall|i: int| 0 <= i < a.len() implies a[i] == b[i] by {
                if i > 0 {
                    assert(a[i] == a.drop_first()[i - 1]);
                    assert(b[i] == b.drop_first()[i - 1]);
                }
            }
            assert(a =~= b);
        }
    } else if b.len() > 0 {
        vstd::utf8::char_u32_cast(a[0], a[0] as u32);
        vstd::utf8::char_u32_cast(b[0], b[0] as u32);
    }
}

/// Sorting before is transitive.
pub proof fn lemma_text_lt_transitive(a: Seq<char>, b: Seq<char>, c: Seq<char>)
    requires
        text_lt(a, b),
        text_lt(b, c),
    ensures
        text_lt(a, c),
    decreases a.len(),
{
    if a.len() > 0 && a[0] == b[0] && b[0] == c[0] {
        lemma_text_lt_transitive(a.drop_first(), b.drop_first(), c.drop_first());
    }
}

pub fn chars_lt(a: &[char], b: &[char]) -> (res: bool)
    ensures
        res == text_lt(a@, b@),
{
    let mut i: usize = 0;
    assert(a@.skip(0) == a@ && b@.skip(0) == b@);
    loop
        invariant
            i <= a@.len(),
            i <= b@.len(),
            text_lt(a@, b@) == text_lt(a@.skip(i as int), b@.skip(i as int)),
        decreases a@.len() - i,
    {
        if i == a.len() {
            return i < b.len();
        }
        if i == b.len() {
            return false;
        }
        if a[i] != b[i] {
            return (a[i] as u32) < (b[i] as u32);
        }
        assert(a@.skip(i as int).drop_first() == a@.skip(i + 1));
        assert(b@.skip(i as int).drop_first() == b@.skip(i + 1));
        i += 1;
    }
}

/// Inserts a user after every one whose lowercased name does not sort after
/// theirs (so equal names keep their order).
pub open spec fn insert_user(sorted: Seq<(i64, Seq<char>)>, x: (i64, Seq<char>)) -> Seq<(i64, Seq<char>)>
    decreases sorted.len(),
{
    if sorted.len() == 0 {
        seq![x]
    } else if text_lt(lowercase_of(x.1), lowercase_of(sorted.last().1)) {
        insert_user(sorted.drop_last(), x).push(sorted.last())
    } else {
        sorted.push(x)
    }
}

/// Users in a stable order of their lowercased names.
pub open spec fn sort_users(s: Seq<(i64, Seq<char>)>) -> Seq<(i64, Seq<char>)>
    decreases s.len(),
{
    if s.len() == 0 {
        Seq::empty()
    } else {
        insert_user(sort_users(s.drop_last()), s.last())
    }
}

proof fn lemma_insert_user_at(sorted: Seq<(i64, Seq<char>)>, x: (i64, Seq<char>), j: int)
    requires
        0 <= j <= sorted.len(),
        forall|i: int| j <= i < sorted.len() ==> text_lt(lowercase_of(x.1), lowercase_of(#[trigger] sorted[i].1)),
        j > 0 ==> !text_lt(lowercase_of(x.1), lowercase_of(sorted[j - 1].1)),
    ensures
        insert_user(sorted, x) == sorted.insert(j, x),
    decreases sorted.len(),
{
    if sorted.len() == j {
        if sorted.len() == 0 {
            assert(sorted.insert(0, x) =~= seq![x]);
        } else {
            assert(sorted.push(x) =~= sorted.insert(j, x));
        }
    } else {
        let last = sorted.last();
        assert(text_lt(lowercase_of(x.1), lowercase_of(sorted[sorted.len() - 1].1)));
        let d = sorted.drop_last();
        assert forall|i: int| j <= i < d.len() implies text_lt(lowercase_of(x.1), lowercase_of(#[trigger] d[i].1)) by {
            assert(d[i] == sorted[i]);
        }
        if j > 0 {
            assert(d[j - 1] == sorted[j - 1]);
        }
        lemma_insert_user_at(d, x, j);
        assert(d.insert(j, x).push(last) =~= sorted.insert(j, x));
    }
}

/// Internal users as `(id, name)`, positive ids only, in a stable order of
/// their lowercased names.
pub fn users_from_records(records: &[XmlRpcValue]) -> (res: Vec<(i64, String)>)
    ensures
        res@.map_values(|p: (i64, String)| (p.0, p.1@)) == sort_users(named_ids_of(deep_items(records@))),
{
    let all = named_ids(records);
    let ghost src = all@.map_values(|p: (i64, String)| (p.0, p.1@));
    let mut res: Vec<(i64, String)> = Vec::new();
    let mut keys: Vec<Vec<char>> = Vec::new();
    let mut n: usize = 0;
    while n < all.len()
        invariant
            n <= all@.len(),
            src == all@.map_values(|p: (i64, String)| (p.0, p.1@)),
            keys@.len() == res@.len(),
            forall|i: int| 0 <= i < res@.len() ==> (#[trigger] keys@[i])@ == lowercase_of(res@[i].1@),
            res@.map_values(|p: (i64, String)| (p.0, p.1@)) == sort_users(src.take(n as int)),
        decreases all@.len() - n,
    {
        let lower = to_lowercase(all[n].1.as_str());
        let k = to_chars(lower.as_str());
        let ghost sorted = res@.map_values(|p: (i64, String)| (p.0, p.1@));
        let ghost x = (all@[n as int].0, all@[n as int].1@);
        let mut j = res.len();
        while j > 0 && chars_lt(k.as_slice(), keys[j - 1].as_slice())
            invariant
                j <= res@.len(),
                keys@.len() == res@.len(),
                forall|i: int| 0 <= i < res@.len() ==> (#[trigger] keys@[i])@ == lowercase_of(res@[i].1@),
                k@ == lowercase_of(x.1),
                sorted == res@.map_values(|p: (i64, String)| (p.0, p.1@)),
                forall|i: int| j <= i < sorted.len() ==> text_lt(lowercase_of(x.1), lowercase_of(#[trigger] sorted[i].1)),
            decreases j,
        {
            assert(sorted[j - 1].1 == res@[j - 1].1@);
            j -= 1;
        }
        proof {
            if j > 0 {
                assert(sorted[j - 1].1 == res@[j - 1].1@);
            }
            lemma_insert_user_at(sorted, x, j as int);
            assert(src.take(n + 1).drop_last() == src.take(n as int));
            assert(src.take(n + 1).last() == x);
        }
        let item = (all[n].0, all[n].1.clone());
        let ghost old_res = res@;
        let ghost old_keys = keys@;
        res.insert(j, item);
        keys.insert(j, k);
        proof {
            assert(res@.map_values(|p: (i64, String)| (p.0, p.1@)) =~= sorted.insert(j as int, x));
            assert forall|i: int| 0 <= i < res@.len() implies (#[trigger] keys@[i])@ == lowercase_of(res@[i].1@) by {
                if i < j {
                    assert(keys@[i] == old_keys[i] && res@[i] == old_res[i]);
                } else if i > j {
                    assert(keys@[i] == old_keys[i - 1] && res@[i] == old_res[i - 1]);
                }
            }
        }
        n += 1;
    }
    assert(src.take(src.len() as int) == src);
    res
}

} // verus!
