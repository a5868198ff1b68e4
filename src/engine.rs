use vstd::prelude::*;

use crate::ast::{CloseReason, EntityType, FieldUpdate, IssueKind, Priority, UserId};
use crate::backend::{BackendError, ExecutionResult};
use crate::records::{
    apply_updates, comment_record, first_undeclared, issue_record, new_comment_record,
    new_issue_record, new_project_record, project_record, put_field, record_put,
    str_view, updated_record, user_record, UserInfo,
};
use crate::table::{
    count_prefix, has_key, keys_unique, lemma_filter_len_bound, rows_view, table_get, table_remove, table_set,
    Table, TableV,
};
use crate::text::{chars_of, copy_str, decimal, push_decimal, str_eq, string_from_chars};
use crate::value::{lookup, FieldValue, Record, RecordV, ValueV};

verus! {

/// Where a database lives.
#[derive(Debug, Clone, PartialEq)]
pub enum DatabaseType {
    InMemory,
    File(String),
}

/// The store: one table per entity kind.
pub struct Database {
    pub users: Table,
    pub projects: Table,
    pub issues: Table,
    pub comments: Table,
    pub location: DatabaseType,
}

/// The contents of a database with strings as character sequences.
pub struct DatabaseV {
    pub users: TableV,
    pub projects: TableV,
    pub issues: TableV,
    pub comments: TableV,
}

impl View for Database {
    type V = DatabaseV;

    open spec fn view(&self) -> DatabaseV {
        DatabaseV {
            users: self.users@,
            projects: self.projects@,
            issues: self.issues@,
            comments: self.comments@,
        }
    }
}

broadcast use crate::table::lemma_set_keeps_unique, crate::table::lemma_filter_keeps_unique;

/// No table holds a key twice.
pub open spec fn db_wf(d: DatabaseV) -> bool {
    keys_unique(d.users) && keys_unique(d.projects) && keys_unique(d.issues) && keys_unique(
        d.comments,
    )
}

impl Database {
    /// The database's invariant: keys are unique in every table.
    pub open spec fn wf(&self) -> bool {
        db_wf(self@)
    }
}

/// The key of the `n`th issue of project `p`: `p#n`.
pub open spec fn issue_key(p: Seq<char>, n: nat) -> Seq<char> {
    p.push('#') + decimal(n)
}

/// The key that the next issue of project `p` gets: one more than the
/// number of issue keys that start with `p#`.
pub open spec fn next_issue_key(d: DatabaseV, p: Seq<char>) -> Seq<char> {
    issue_key(p, count_prefix(d.issues, p.push('#')) + 1)
}

/// A user id is known when the users table holds it, or when the user
/// provider gave it (`vouched`).
pub open spec fn user_known(d: DatabaseV, u: Seq<char>, vouched: bool) -> bool {
    vouched || has_key(d.users, u)
}

/// The user named explicitly, or else the principal.
pub open spec fn user_or(u: Option<UserId>, principal: UserId) -> Seq<char> {
    match u {
        Some(x) => x.0@,
        None => principal.0@,
    }
}

/// The issue rows of project `p`.
pub open spec fn in_project(p: Seq<char>) -> spec_fn((Seq<char>, RecordV)) -> bool {
    |e: (Seq<char>, RecordV)| lookup(e.1, "project"@) == Some(ValueV::Str(p))
}

pub open spec fn not_in_project(p: Seq<char>) -> spec_fn((Seq<char>, RecordV)) -> bool {
    |e: (Seq<char>, RecordV)| lookup(e.1, "project"@) != Some(ValueV::Str(p))
}

/// The comment rows on one of the issues `ids`.
pub open spec fn on_issues(ids: Seq<Seq<char>>) -> spec_fn((Seq<char>, RecordV)) -> bool {
    |e: (Seq<char>, RecordV)| exists|k: int| 0 <= k < ids.len() && lookup(e.1, "issue"@) == Some(ValueV::Str(#[trigger] ids[k]))
}

pub open spec fn not_on_issues(ids: Seq<Seq<char>>) -> spec_fn((Seq<char>, RecordV)) -> bool {
    |e: (Seq<char>, RecordV)| !(exists|k: int| 0 <= k < ids.len() && lookup(e.1, "issue"@) == Some(ValueV::Str(#[trigger] ids[k])))
}

/// The keys of a table, in order.
pub open spec fn keys_of(t: TableV) -> Seq<Seq<char>> {
    t.map_values(|e: (Seq<char>, RecordV)| e.0)
}

pub open spec fn strings_view(v: Seq<String>) -> Seq<Seq<char>> {
    v.map_values(|s: String| s@)
}

/// The database after DELETE PROJECT `p`: the project row, the issues of
/// the project, and the comments on those issues are gone.
pub open spec fn after_project_delete(d: DatabaseV, p: Seq<char>) -> DatabaseV {
    DatabaseV {
        users: d.users,
        projects: table_remove(d.projects, p),
        issues: d.issues.filter(not_in_project(p)),
        comments: d.comments.filter(not_on_issues(keys_of(d.issues.filter(in_project(p))))),
    }
}

/// The database after DELETE ISSUE `i`: the issue row and its comments are
/// gone.
pub open spec fn after_issue_delete(d: DatabaseV, i: Seq<char>) -> DatabaseV {
    DatabaseV {
        users: d.users,
        projects: d.projects,
        issues: table_remove(d.issues, i),
        comments: d.comments.filter(not_on_issues(seq![i])),
    }
}

/// The number of rows in all tables.
pub open spec fn total_rows(d: DatabaseV) -> int {
    (d.users.len() + d.projects.len() + d.issues.len() + d.comments.len()) as int
}

pub open spec fn with_users(d: DatabaseV, t: TableV) -> DatabaseV {
    DatabaseV { users: t, projects: d.projects, issues: d.issues, comments: d.comments }
}

pub open spec fn with_projects(d: DatabaseV, t: TableV) -> DatabaseV {
    DatabaseV { users: d.users, projects: t, issues: d.issues, comments: d.comments }
}

pub open spec fn with_issues(d: DatabaseV, t: TableV) -> DatabaseV {
    DatabaseV { users: d.users, projects: d.projects, issues: t, comments: d.comments }
}

pub open spec fn with_comments(d: DatabaseV, t: TableV) -> DatabaseV {
    DatabaseV { users: d.users, projects: d.projects, issues: d.issues, comments: t }
}

/// The table that holds an entity kind.
pub open spec fn table_of(d: DatabaseV, kind: EntityType) -> TableV {
    match kind {
        EntityType::Users => d.users,
        EntityType::Projects => d.projects,
        EntityType::Issues => d.issues,
        EntityType::Comments => d.comments,
    }
}

pub open spec fn with_table(d: DatabaseV, kind: EntityType, t: TableV) -> DatabaseV {
    match kind {
        EntityType::Users => with_users(d, t),
        EntityType::Projects => with_projects(d, t),
        EntityType::Issues => with_issues(d, t),
        EntityType::Comments => with_comments(d, t),
    }
}

/// `ItemNotFound` for the kind named `kind` and the id `id`.
pub open spec fn is_item_not_found<T>(r: Result<T, BackendError>, kind: Seq<char>, id: Seq<char>) -> bool {
    r matches Err(BackendError::ItemNotFound { kind: k, id: i }) && k@ == kind && i@ == id
}

/// What CREATE PROJECT `p` does: an existing `p` is `ProjectAlreadyExists`;
/// an owner that is not known is `UserNotFound`; otherwise the project is
/// stored under `p`.
pub open spec fn create_project_outcome(
    d: DatabaseV,
    n: DatabaseV,
    p: Seq<char>,
    display: Option<Seq<char>>,
    description: Option<Seq<char>>,
    owner: Seq<char>,
    vouched: bool,
    r: Result<ExecutionResult, BackendError>,
) -> bool {
    if has_key(d.projects, p) {
        (r matches Err(BackendError::ProjectAlreadyExists(s)) && s@ == p) && n == d
    } else if !user_known(d, owner, vouched) {
        (r matches Err(BackendError::UserNotFound { id }) && id@ == owner) && n == d
    } else {
        (r matches Ok(res) && res.rows == 1) && n == with_projects(
            d,
            table_set(d.projects, p, project_record(description, owner, display)),
        )
    }
}

/// What CREATE ISSUE … IN `p` does: a missing project is `ItemNotFound`;
/// otherwise the issue record `rec` is stored under the next key of `p`.
pub open spec fn create_issue_outcome(
    d: DatabaseV,
    n: DatabaseV,
    p: Seq<char>,
    rec: RecordV,
    r: Result<ExecutionResult, BackendError>,
) -> bool {
    if !has_key(d.projects, p) {
        is_item_not_found(r, "PROJECT"@, p) && n == d
    } else {
        (r matches Ok(res) && res.rows == 1) && n == with_issues(
            d,
            table_set(d.issues, next_issue_key(d, p), rec),
        )
    }
}

/// What COMMENT ON ISSUE `issue` does: a missing issue is `ItemNotFound`;
/// otherwise the comment record `rec` is stored under `id`.
pub open spec fn comment_outcome(
    d: DatabaseV,
    n: DatabaseV,
    issue: Seq<char>,
    id: Seq<char>,
    rec: RecordV,
    r: Result<ExecutionResult, BackendError>,
) -> bool {
    if !has_key(d.issues, issue) {
        is_item_not_found(r, "ISSUE"@, issue) && n == d
    } else {
        (r matches Ok(res) && res.rows == 1) && n == with_comments(d, table_set(d.comments, id, rec))
    }
}

/// What an UPDATE of the `kind` record `id` does: a missing record is
/// `ItemNotFound`; a field that the kind does not declare is
/// `FieldNotFound` (the first such) and nothing changes; otherwise the
/// updates are written in order.
pub open spec fn update_outcome(
    d: DatabaseV,
    n: DatabaseV,
    kind: EntityType,
    id: Seq<char>,
    updates: Seq<FieldUpdate>,
    r: Result<ExecutionResult, BackendError>,
) -> bool {
    match table_get(table_of(d, kind), id) {
        None => is_item_not_found(r, crate::ast::entity_kind_name(kind), id) && n == d,
        Some(rec) => match first_undeclared(updates, kind) {
            Some(i) => (r matches Err(BackendError::FieldNotFound(f)) && f@ == updates[i].field@)
                && n == d,
            None => (r matches Ok(res) && res.rows == 1) && n == with_table(
                d,
                kind,
                table_set(table_of(d, kind), id, apply_updates(rec, updates)),
            ),
        },
    }
}

/// The reason a CLOSE records: the one given, or `Done`.
pub open spec fn reason_or_done(reason: Option<CloseReason>) -> CloseReason {
    match reason {
        Some(x) => x,
        None => CloseReason::Done,
    }
}

/// What CLOSE ISSUE `id` does: a missing issue is `ItemNotFound`, a closed
/// one `IssueAlreadyClosed` with its reason, any other gets the status
/// `Closed` with the reason; only the last changes the database.
pub open spec fn close_outcome(
    d: DatabaseV,
    n: DatabaseV,
    id: Seq<char>,
    reason: Option<CloseReason>,
    r: Result<ExecutionResult, BackendError>,
) -> bool {
    match table_get(d.issues, id) {
        None => is_item_not_found(r, "ISSUE"@, id) && n == d,
        Some(rec) => match lookup(rec, "status"@) {
            Some(ValueV::Closed(prev)) => (r matches Err(BackendError::IssueAlreadyClosed(i, why))
                && i@ == id && why == prev) && n == d,
            _ => (r matches Ok(res) && res.rows == 1) && n == with_issues(
                d,
                table_set(d.issues, id, record_put(rec, "status"@, ValueV::Closed(reason_or_done(reason)))),
            ),
        },
    }
}

/// What REOPEN ISSUE `id` does: a closed issue gets the status `Open` and
/// one row is reported; any other issue stays as it is and zero rows are
/// reported.
pub open spec fn reopen_outcome(
    d: DatabaseV,
    n: DatabaseV,
    id: Seq<char>,
    r: Result<ExecutionResult, BackendError>,
) -> bool {
    match table_get(d.issues, id) {
        None => is_item_not_found(r, "ISSUE"@, id) && n == d,
        Some(rec) => match lookup(rec, "status"@) {
            Some(ValueV::Closed(_)) => (r matches Ok(res) && res.rows == 1) && n == with_issues(
                d,
                table_set(d.issues, id, record_put(rec, "status"@, ValueV::Str("Open"@))),
            ),
            _ => (r matches Ok(res) && res.rows == 0) && n == d,
        },
    }
}

/// What ASSIGN ISSUE `id` TO `user` does.
pub open spec fn assign_outcome(
    d: DatabaseV,
    n: DatabaseV,
    id: Seq<char>,
    user: Seq<char>,
    r: Result<ExecutionResult, BackendError>,
) -> bool {
    match table_get(d.issues, id) {
        None => is_item_not_found(r, "ISSUE"@, id) && n == d,
        Some(rec) => (r matches Ok(res) && res.rows == 1) && n == with_issues(
            d,
            table_set(d.issues, id, record_put(rec, "assignee"@, ValueV::Str(user))),
        ),
    }
}

/// The key `p#n` as a string.
pub fn make_issue_key(p: &str, n: u64) -> (r: String)
    ensures
        r@ == issue_key(p@, n as nat),
{
    let mut v = chars_of(p);
    v.push('#');
    push_decimal(&mut v, n);
    string_from_chars(v.as_slice())
}

fn not_found<T>(kind: &str, id: &str) -> (r: Result<T, BackendError>)
    ensures
        is_item_not_found(r, kind@, id@),
{
    Err(BackendError::ItemNotFound { kind: copy_str(kind), id: copy_str(id) })
}

/// The issues of project `p` are split off: the rows that stay, and the
/// keys of the rows that go.
fn split_project_issues(t: &Table, p: &str) -> (r: (Table, Vec<String>))
    ensures
        r.0@ == t@.filter(not_in_project(p@)),
        strings_view(r.1@) == keys_of(t@.filter(in_project(p@))),
{
    let mut kept: Vec<(String, Record)> = Vec::new();
    let mut ids: Vec<String> = Vec::new();
    let mut i: usize = 0;
    while i < t.rows.len()
        invariant
            t@.len() == t.rows@.len(),
            i <= t@.len(),
            rows_view(kept@) == t@.subrange(0, i as int).filter(not_in_project(p@)),
            strings_view(ids@) == keys_of(t@.subrange(0, i as int).filter(in_project(p@))),
        decreases t@.len() - i,
    {
        reveal(Seq::filter);
        assert(t@.subrange(0, i + 1).drop_last() =~= t@.subrange(0, i as int));
        let ghost e = t@[i as int];
        assert(t@.subrange(0, i + 1).last() == e);
        let ghost kb = kept@;
        let ghost ib = ids@;
        let belongs = match t.rows[i].1.get("project") {
            Some(FieldValue::Str(s)) => str_eq(s.as_str(), p),
            _ => false,
        };
        assert(belongs == (lookup(e.1, "project"@) == Some(ValueV::Str(p@))));
        if belongs {
            ids.push(t.rows[i].0.clone());
            assert(strings_view(ids@) =~= strings_view(ib).push(e.0));
            assert(keys_of(t@.subrange(0, i as int).filter(in_project(p@)).push(e)) =~= keys_of(
                t@.subrange(0, i as int).filter(in_project(p@)),
            ).push(e.0));
        } else {
            kept.push((t.rows[i].0.clone(), t.rows[i].1.copy()));
            assert(rows_view(kept@) =~= rows_view(kb).push(e));
        }
        i = i + 1;
    }
    assert(t@.subrange(0, t@.len() as int) =~= t@);
    (Table { rows: kept }, ids)
}

/// Whether a comment record is on one of the issues `ids`.
fn is_on_issues(rec: &Record, ids: &Vec<String>) -> (r: bool)
    ensures
        r == exists|k: int| 0 <= k < ids@.len() && lookup(rec@, "issue"@) == Some(ValueV::Str(#[trigger] strings_view(ids@)[k])),
{
    match rec.get("issue") {
        Some(FieldValue::Str(s)) => {
            let mut k: usize = 0;
            while k < ids.len()
                invariant
                    k <= ids@.len(),
                    lookup(rec@, "issue"@) == Some(ValueV::Str(s@)),
                    forall|j: int| 0 <= j < k ==> strings_view(ids@)[j] != s@,
                decreases ids@.len() - k,
            {
                if str_eq(ids[k].as_str(), s.as_str()) {
                    assert(strings_view(ids@)[k as int] == s@);
                    return true;
                }
                k = k + 1;
            }
            false
        },
        _ => false,
    }
}

/// The comments that are not on one of the issues `ids`.
fn drop_comments_on(t: &Table, ids: &Vec<String>) -> (r: Table)
    ensures
        r@ == t@.filter(not_on_issues(strings_view(ids@))),
{
    let ghost idv = strings_view(ids@);
    let mut kept: Vec<(String, Record)> = Vec::new();
    let mut i: usize = 0;
    while i < t.rows.len()
        invariant
            idv == strings_view(ids@),
            idv.len() == ids@.len(),
            t@.len() == t.rows@.len(),
            i <= t@.len(),
            rows_view(kept@) == t@.subrange(0, i as int).filter(not_on_issues(idv)),
        decreases t@.len() - i,
    {
        reveal(Seq::filter);
        assert(t@.subrange(0, i + 1).drop_last() =~= t@.subrange(0, i as int));
        let ghost e = t@[i as int];
        assert(t@.subrange(0, i + 1).last() == e);
        let ghost kb = kept@;
        let on = is_on_issues(&t.rows[i].1, ids);
        if !on {
            kept.push((t.rows[i].0.clone(), t.rows[i].1.copy()));
            assert(rows_view(kept@) =~= rows_view(kb).push(e));
        }
        i = i + 1;
    }
    assert(t@.subrange(0, t@.len() as int) =~= t@);
    Table { rows: kept }
}

impl Database {
    /// An empty database. The engine keeps its tables in memory; for a
    /// database of type `File` the surrounding program loads and saves them.
    pub fn new(typ: &DatabaseType) -> (r: Result<Database, BackendError>)
        ensures
            r matches Ok(db) && db@.users.len() == 0 && db@.projects.len() == 0 && db@.issues.len()
                == 0 && db@.comments.len() == 0 && db.wf(),
    {
        let location = match typ {
            DatabaseType::InMemory => DatabaseType::InMemory,
            DatabaseType::File(p) => DatabaseType::File(p.clone()),
        };
        Ok(
            Database {
                users: Table::new(),
                projects: Table::new(),
                issues: Table::new(),
                comments: Table::new(),
                location,
            },
        )
    }

    /// Registers a user; users come from outside the query language.
    pub fn add_user(&mut self, id: &UserId, info: &UserInfo)
        requires
            old(self).wf(),
        ensures
            final(self).wf(),
            final(self)@ == with_users(
                old(self)@,
                table_set(
                    old(self)@.users,
                    id.0@,
                    user_record(info.name@, str_view(info.display), info.email@),
                ),
            ),
    {
        let rec = info.to_record();
        self.users.set(id.0.clone(), rec);
    }

    /// The number that the next issue of `project` gets: one more than the
    /// number of issue keys that start with `project#`.
    pub fn get_next_issue_id(&self, project: &str) -> (r: u64)
        requires
            self@.issues.len() < u64::MAX,
        ensures
            r == count_prefix(self@.issues, project@.push('#')) + 1,
    {
        let prefix = make_prefix(project);
        let n = self.issues.count_prefix(prefix.as_str());
        assert(count_prefix(self@.issues, project@.push('#')) <= self@.issues.len()) by {
            lemma_count_prefix_bound(self@.issues, project@.push('#'));
        }
        n as u64 + 1
    }

    /// The table that holds `kind`.
    pub fn table(&self, kind: EntityType) -> (r: &Table)
        ensures
            r@ == table_of(self@, kind),
    {
        match kind {
            EntityType::Users => &self.users,
            EntityType::Projects => &self.projects,
            EntityType::Issues => &self.issues,
            EntityType::Comments => &self.comments,
        }
    }

    /// Whether a `kind` record is stored under `key`.
    pub fn contains_key(&self, kind: EntityType, key: &str) -> (r: bool)
        ensures
            r == has_key(table_of(self@, kind), key@),
    {
        self.table(kind).contains(key)
    }

    /// The `kind` record stored under `key`.
    pub fn get(&self, kind: EntityType, key: &str) -> (r: Option<&Record>)
        ensures
            r matches Some(rec) ==> table_get(table_of(self@, kind), key@) == Some(rec@),
            r is None ==> table_get(table_of(self@, kind), key@) is None,
    {
        self.table(kind).get(key)
    }

    /// The keys of the `kind` table, in order.
    pub fn get_keys(&self, kind: EntityType) -> (r: Vec<String>)
        ensures
            strings_view(r@) == keys_of(table_of(self@, kind)),
    {
        let t = self.table(kind);
        let mut out: Vec<String> = Vec::new();
        let mut i: usize = 0;
        while i < t.rows.len()
            invariant
                t@ == table_of(self@, kind),
                t@.len() == t.rows@.len(),
                i <= t@.len(),
                out@.len() == i,
                strings_view(out@) == keys_of(t@.subrange(0, i as int)),
            decreases t@.len() - i,
        {
            let ghost before = out@;
            out.push(t.rows[i].0.clone());
            assert forall|j: int| 0 <= j <= i implies #[trigger] strings_view(out@)[j] == keys_of(
                t@.subrange(0, i + 1),
            )[j] by {
                if j < i {
                    assert(out@[j] == before[j]);
                    assert(strings_view(before)[j] == keys_of(t@.subrange(0, i as int))[j]);
                }
            }
            assert(strings_view(out@) =~= keys_of(t@.subrange(0, i + 1)));
            i = i + 1;
        }
        assert(t@.subrange(0, t@.len() as int) =~= t@);
        out
    }

    /// CREATE PROJECT.
    pub fn create_project(
        &mut self,
        owner: &UserId,
        vouched: bool,
        project_id: &str,
        name: &Option<String>,
        description: &Option<String>,
    ) -> (r: Result<ExecutionResult, BackendError>)
        requires
            old(self).wf(),
        ensures
            final(self).wf(),
            create_project_outcome(
                old(self)@,
                final(self)@,
                project_id@,
                str_view(*name),
                str_view(*description),
                owner.0@,
                vouched,
                r,
            ),
    {
        if self.projects.contains(project_id) {
            return Err(BackendError::ProjectAlreadyExists(copy_str(project_id)));
        }
        if !vouched && !self.users.contains(owner.0.as_str()) {
            return Err(BackendError::UserNotFound { id: owner.0.clone() });
        }
        let rec = new_project_record(description, owner.0.as_str(), name);
        self.projects.set(copy_str(project_id), rec);
        Ok(ExecutionResult::one())
    }

    /// CREATE ISSUE: the new issue of project `p` is stored under
    /// `p#n`, where `n` is one more than the number of issue keys that
    /// start with `p#`.
    pub fn create_issue(
        &mut self,
        assignee: &UserId,
        project: &str,
        kind: IssueKind,
        title: &str,
        description: &Option<String>,
        priority: Option<Priority>,
    ) -> (r: Result<ExecutionResult, BackendError>)
        requires
            old(self).wf(),
            old(self)@.issues.len() < u64::MAX,
        ensures
            final(self).wf(),
            create_issue_outcome(
                old(self)@,
                final(self)@,
                project@,
                issue_record(title@, kind, str_view(*description), project@, priority, assignee.0@),
                r,
            ),
    {
        if !self.projects.contains(project) {
            return not_found("PROJECT", project);
        }
        let n = self.get_next_issue_id(project);
        let key = make_issue_key(project, n);
        let rec = new_issue_record(title, kind, description, project, priority, assignee.0.as_str());
        self.issues.set(key, rec);
        Ok(ExecutionResult::one())
    }

    /// UPDATE of a project, an issue or a comment: every field must be one
    /// that the kind's record type declares.
    pub fn update_entity(&mut self, kind: EntityType, id: &str, updates: &Vec<FieldUpdate>) -> (r:
        Result<ExecutionResult, BackendError>)
        requires
            old(self).wf(),
        ensures
            final(self).wf(),
            update_outcome(old(self)@, final(self)@, kind, id@, updates@, r),
    {
        let table: &Table = match kind {
            EntityType::Users => &self.users,
            EntityType::Projects => &self.projects,
            EntityType::Issues => &self.issues,
            EntityType::Comments => &self.comments,
        };
        let rec = match table.get(id) {
            Some(rec) => rec,
            None => {
                return not_found(kind.kind().as_str(), id);
            },
        };
        let new_rec = match updated_record(rec, updates, kind) {
            Ok(n) => n,
            Err(e) => {
                return Err(e);
            },
        };
        match kind {
            EntityType::Users => self.users.set(copy_str(id), new_rec),
            EntityType::Projects => self.projects.set(copy_str(id), new_rec),
            EntityType::Issues => self.issues.set(copy_str(id), new_rec),
            EntityType::Comments => self.comments.set(copy_str(id), new_rec),
        }
        Ok(ExecutionResult::one())
    }

    /// ASSIGN ISSUE `id` TO `user`.
    pub fn assign_issue(&mut self, id: &str, user: &UserId) -> (r: Result<ExecutionResult, BackendError>)
        requires
            old(self).wf(),
        ensures
            final(self).wf(),
            assign_outcome(old(self)@, final(self)@, id@, user.0@, r),
    {
        let mut rec = match self.issues.get(id) {
            Some(rec) => rec.copy(),
            None => {
                return not_found("ISSUE", id);
            },
        };
        put_field(&mut rec, "assignee", FieldValue::Str(user.0.clone()));
        self.issues.set(copy_str(id), rec);
        Ok(ExecutionResult::one())
    }

    /// CLOSE ISSUE `id`: a closed issue cannot be closed again.
    pub fn close_issue(&mut self, id: &str, reason: Option<CloseReason>) -> (r: Result<
        ExecutionResult,
        BackendError,
    >)
        requires
            old(self).wf(),
        ensures
            final(self).wf(),
            close_outcome(old(self)@, final(self)@, id@, reason, r),
    {
        let mut rec = match self.issues.get(id) {
            Some(rec) => rec.copy(),
            None => {
                return not_found("ISSUE", id);
            },
        };
        match rec.get("status") {
            Some(FieldValue::Closed(prev)) => {
                return Err(BackendError::IssueAlreadyClosed(copy_str(id), *prev));
            },
            _ => {},
        }
        let why = match reason {
            Some(x) => x,
            None => CloseReason::Done,
        };
        put_field(&mut rec, "status", FieldValue::Closed(why));
        self.issues.set(copy_str(id), rec);
        Ok(ExecutionResult::one())
    }

    /// REOPEN ISSUE `id`: an issue that is not closed stays as it is and
    /// zero rows are reported.
    pub fn reopen_issue(&mut self, id: &str) -> (r: Result<ExecutionResult, BackendError>)
        requires
            old(self).wf(),
        ensures
            final(self).wf(),
            reopen_outcome(old(self)@, final(self)@, id@, r),
    {
        let mut rec = match self.issues.get(id) {
            Some(rec) => rec.copy(),
            None => {
                return not_found("ISSUE", id);
            },
        };
        match rec.get("status") {
            Some(FieldValue::Closed(_)) => {},
            _ => {
                return Ok(ExecutionResult::zero());
            },
        }
        put_field(&mut rec, "status", FieldValue::Str(copy_str("Open")));
        self.issues.set(copy_str(id), rec);
        Ok(ExecutionResult::one())
    }

    /// COMMENT ON ISSUE: stores a comment under `comment_id`.
    pub fn add_comment(
        &mut self,
        issue: &str,
        content: &str,
        author: &UserId,
        comment_id: &str,
        created_at: i128,
    ) -> (r: Result<ExecutionResult, BackendError>)
        requires
            old(self).wf(),
        ensures
            final(self).wf(),
            comment_outcome(
                old(self)@,
                final(self)@,
                issue@,
                comment_id@,
                comment_record(issue@, created_at as int, content@, author.0@),
                r,
            ),
    {
        if !self.issues.contains(issue) {
            return not_found("ISSUE", issue);
        }
        let rec = new_comment_record(issue, created_at, content, author.0.as_str());
        self.comments.set(copy_str(comment_id), rec);
        Ok(ExecutionResult::one())
    }

    /// DELETE COMMENT: the rows removed are counted.
    pub fn delete_comment(&mut self, id: &str) -> (r: ExecutionResult)
        requires
            old(self).wf(),
        ensures
            final(self).wf(),
            final(self)@ == with_comments(old(self)@, table_remove(old(self)@.comments, id@)),
            r.rows == total_rows(old(self)@) - total_rows(final(self)@),
    {
        let n = self.comments.remove(id);
        ExecutionResult::new(n as u128)
    }

    /// DELETE ISSUE: the issue and its comments; the rows removed are
    /// counted.
    pub fn delete_issue(&mut self, id: &str) -> (r: ExecutionResult)
        requires
            old(self).wf(),
        ensures
            final(self).wf(),
            final(self)@ == after_issue_delete(old(self)@, id@),
            r.rows == total_rows(old(self)@) - total_rows(final(self)@),
    {
        let n = self.issues.remove(id);
        let ids = vec![copy_str(id)];
        assert(strings_view(ids@) =~= seq![id@]);
        let before = self.comments.rows.len();
        let kept = drop_comments_on(&self.comments, &ids);
        proof {
            lemma_filter_len_bound(self@.comments, not_on_issues(seq![id@]));
        }
        let m = before - kept.rows.len();
        self.comments = kept;
        ExecutionResult::new(n as u128 + m as u128)
    }

    /// DELETE PROJECT: the project, its issues and their comments; the rows
    /// removed are counted.
    pub fn delete_project(&mut self, id: &str) -> (r: ExecutionResult)
        requires
            old(self).wf(),
        ensures
            final(self).wf(),
            final(self)@ == after_project_delete(old(self)@, id@),
            r.rows == total_rows(old(self)@) - total_rows(final(self)@),
    {
        let n = self.projects.remove(id);
        let (kept_issues, ids) = split_project_issues(&self.issues, id);
        proof {
            lemma_filter_len_bound(self@.issues, not_in_project(id@));
        }
        let ni = self.issues.rows.len() - kept_issues.rows.len();
        let kept_comments = drop_comments_on(&self.comments, &ids);
        proof {
            lemma_filter_len_bound(self@.comments, not_on_issues(strings_view(ids@)));
        }
        let nc = self.comments.rows.len() - kept_comments.rows.len();
        self.issues = kept_issues;
        self.comments = kept_comments;
        ExecutionResult::new(n as u128 + ni as u128 + nc as u128)
    }
}

/// The prefix `p#` of the issue keys of project `p`.
fn make_prefix(p: &str) -> (r: String)
    ensures
        r@ == p@.push('#'),
{
    let mut v = chars_of(p);
    v.push('#');
    string_from_chars(v.as_slice())
}

pub proof fn lemma_count_prefix_bound(t: TableV, p: Seq<char>)
    ensures
        count_prefix(t, p) <= t.len(),
    decreases t.len(),
{
    if t.len() > 0 {
        lemma_count_prefix_bound(t.drop_last(), p);
    }
}

} // verus!
