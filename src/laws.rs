use vstd::prelude::*;

use crate::ast::{
    CloseReason, CreateStatement, EntityType, FieldUpdate, IssueKind, Priority, ProjectId, Statement,
    UserId,
};
use crate::exec::execute_outcome;
use crate::backend::{BackendError, ExecutionResult};
use crate::engine::{
    after_project_delete, close_outcome, create_issue_outcome, create_project_outcome, in_project,
    issue_key, keys_of, next_issue_key, on_issues, reason_or_done, reopen_outcome, total_rows,
    update_outcome, DatabaseV,
};
use crate::records::{declared_fields, first_undeclared, issue_record, record_put, str_view};
use crate::table::{
    count_prefix, has_key, key_is_not, key_position, keys_unique, lemma_filter_split,
    lemma_key_position, table_get, table_set, TableV,
};
use crate::text::{decimal, digit_char};
use crate::value::{lemma_position_of, lookup, position_of, RecordV, ValueV};

verus! {

broadcast use vstd::seq_lib::group_filter_ensures;

/// Keeps the rows whose key is `k`.
pub open spec fn key_is(k: Seq<char>) -> spec_fn((Seq<char>, RecordV)) -> bool {
    |e: (Seq<char>, RecordV)| e.0 == k
}

/// After writing `r` under `k`, the table holds `k`, and `r` under it.
pub proof fn lemma_set_then_get(t: TableV, k: Seq<char>, r: RecordV)
    ensures
        has_key(table_set(t, k, r), k),
        table_get(table_set(t, k, r), k) == Some(r),
{
    lemma_key_position(t, k);
    let u = table_set(t, k, r);
    lemma_key_position(u, k);
    match key_position(t, k) {
        Some(i) => {
            assert(u[i].0 == k);
            match key_position(u, k) {
                Some(j) => {
                    if j < i {
                        assert(u[j] == t[j]);
                    }
                },
                None => {},
            }
        },
        None => {
            assert(u[t.len() as int].0 == k);
            match key_position(u, k) {
                Some(j) => {
                    if j < t.len() {
                        assert(u[j] == t[j]);
                    }
                },
                None => {},
            }
        },
    }
}

/// After setting field `name` to `v`, the record reads `v` there.
pub proof fn lemma_put_then_lookup(r: RecordV, name: Seq<char>, v: ValueV)
    ensures
        lookup(record_put(r, name, v), name) == Some(v),
{
    lemma_position_of(r, name);
    let u = record_put(r, name, v);
    lemma_position_of(u, name);
    match position_of(r, name) {
        Some(i) => {
            assert(u[i].0 == name);
            match position_of(u, name) {
                Some(j) => {
                    if j < i {
                        assert(u[j] == r[j]);
                    }
                },
                None => {},
            }
        },
        None => {
            assert(u[r.len() as int].0 == name);
            match position_of(u, name) {
                Some(j) => {
                    if j < r.len() {
                        assert(u[j] == r[j]);
                    }
                },
                None => {},
            }
        },
    }
}

pub proof fn lemma_decimal_len(n: nat)
    ensures
        decimal(n).len() >= 1,
        n >= 10 ==> decimal(n).len() >= 2,
    decreases n,
{
    if n >= 10 {
        lemma_decimal_len(n / 10);
    }
}

/// Different numbers have different decimal spellings.
pub proof fn lemma_decimal_injective(a: nat, b: nat)
    requires
        decimal(a) == decimal(b),
    ensures
        a == b,
    decreases a,
{
    lemma_decimal_len(a);
    lemma_decimal_len(b);
    if a < 10 && b < 10 {
        assert(decimal(a)[0] == digit_char(a));
        assert(decimal(b)[0] == digit_char(b));
    } else if a >= 10 && b >= 10 {
        let da = decimal(a / 10);
        let db = decimal(b / 10);
        assert(decimal(a).drop_last() =~= da);
        assert(decimal(b).drop_last() =~= db);
        lemma_decimal_injective(a / 10, b / 10);
        assert(decimal(a).last() == digit_char(a % 10));
        assert(decimal(b).last() == digit_char(b % 10));
        assert(a % 10 == b % 10);
    } else {
        lemma_decimal_len(a / 10);
        lemma_decimal_len(b / 10);
    }
}

/// The issue keys of `p` in `issues` are exactly `p#1` … `p#k`.
pub open spec fn numbered(issues: TableV, p: Seq<char>, k: nat) -> bool {
    count_prefix(issues, p.push('#')) == k && forall|j: int|
        0 <= j < issues.len() && p.push('#').is_prefix_of(#[trigger] issues[j].0) ==> exists|m: nat|
            1 <= m <= k && issues[j].0 == issue_key(p, m)
}

/// Per-project numbering: when the issues of `p` are `p#1` … `p#k`, the
/// next successful CREATE ISSUE in `p` stores the issue under `p#(k+1)`,
/// appended to the table, and the issues of `p` are then `p#1` … `p#(k+1)`.
pub proof fn law_issue_numbering(
    d: DatabaseV,
    n: DatabaseV,
    p: Seq<char>,
    rec: RecordV,
    r: Result<ExecutionResult, BackendError>,
    k: nat,
)
    requires
        numbered(d.issues, p, k),
        create_issue_outcome(d, n, p, rec, r),
        r is Ok,
    ensures
        next_issue_key(d, p) == issue_key(p, k + 1),
        n.issues == d.issues.push((issue_key(p, k + 1), rec)),
        numbered(n.issues, p, k + 1),
{
    let key = issue_key(p, k + 1);
    let pre = p.push('#');
    assert(pre.is_prefix_of(key)) by {
        assert(key.subrange(0, pre.len() as int) =~= pre);
    }
    lemma_key_position(d.issues, key);
    if key_position(d.issues, key) is Some {
        let j = key_position(d.issues, key)->0;
        assert(pre.is_prefix_of(d.issues[j].0));
        let m = choose|m: nat| 1 <= m <= k && d.issues[j].0 == issue_key(p, m);
        assert(issue_key(p, m).subrange(pre.len() as int, issue_key(p, m).len() as int) =~= decimal(m));
        assert(key.subrange(pre.len() as int, key.len() as int) =~= decimal(k + 1));
        lemma_decimal_injective(m, k + 1);
    }
    let t2 = d.issues.push((key, rec));
    assert(t2.drop_last() =~= d.issues);
    assert forall|j: int|
        0 <= j < t2.len() && pre.is_prefix_of(#[trigger] t2[j].0) implies exists|m: nat|
        1 <= m <= k + 1 && t2[j].0 == issue_key(p, m) by {
        if j < d.issues.len() {
            assert(t2[j] == d.issues[j]);
            let m = choose|m: nat| 1 <= m <= k && d.issues[j].0 == issue_key(p, m);
            assert(1 <= m <= k + 1 && t2[j].0 == issue_key(p, m));
        } else {
            assert(t2[j].0 == issue_key(p, k + 1));
        }
    }
}

/// Per-project numbering through `execute`: when the issues of `p` are
/// `p#1` … `p#k`, a CREATE ISSUE in `p` that succeeds appends the issue
/// under `p#(k+1)` with status `Open`, whoever the provider names as the
/// assignee, and the issues of `p` are then `p#1` … `p#(k+1)`.
pub proof fn law_execute_issue_numbering(
    d: DatabaseV,
    n: DatabaseV,
    project: ProjectId,
    kind: IssueKind,
    title: String,
    description: Option<String>,
    priority: Option<Priority>,
    assignee: Option<UserId>,
    r: Result<ExecutionResult, BackendError>,
    k: nat,
)
    requires
        numbered(d.issues, project.0@, k),
        execute_outcome(
            d,
            n,
            Statement::Create(
                CreateStatement::Issue { project, kind, title, description, priority, assignee },
            ),
            r,
        ),
        r is Ok,
    ensures
        n.issues.len() == d.issues.len() + 1,
        n.issues.last().0 == issue_key(project.0@, k + 1),
        lookup(n.issues.last().1, "status"@) == Some(ValueV::Str("Open"@)),
        n.issues.drop_last() == d.issues,
        numbered(n.issues, project.0@, k + 1),
{
    let p = project.0@;
    match assignee {
        Some(u) => {
            let rec = issue_record(title@, kind, str_view(description), p, priority, u.0@);
            law_issue_numbering(d, n, p, rec, r, k);
            lemma_status_open(title@, kind, str_view(description), p, priority, u.0@);
        },
        None => {
            let u = choose|u: UserId|
                #[trigger] create_issue_outcome(
                    d,
                    n,
                    p,
                    issue_record(title@, kind, str_view(description), p, priority, u.0@),
                    r,
                );
            let rec = issue_record(title@, kind, str_view(description), p, priority, u.0@);
            law_issue_numbering(d, n, p, rec, r, k);
            lemma_status_open(title@, kind, str_view(description), p, priority, u.0@);
        },
    }
    assert(n.issues.drop_last() =~= d.issues);
}

/// A new issue record reads `Open` as its status.
pub proof fn lemma_status_open(
    title: Seq<char>,
    kind: IssueKind,
    description: Option<Seq<char>>,
    project: Seq<char>,
    priority: Option<Priority>,
    assignee: Seq<char>,
)
    ensures
        lookup(issue_record(title, kind, description, project, priority, assignee), "status"@)
            == Some(ValueV::Str("Open"@)),
{
    let r = issue_record(title, kind, description, project, priority, assignee);
    reveal_strlit("title");
    reveal_strlit("kind");
    reveal_strlit("description");
    reveal_strlit("status");
    lemma_position_of(r, "status"@);
    let i: int = match description {
        Some(_) => 3,
        None => 2,
    };
    assert(r[i].0 == "status"@);
    assert forall|j: int| 0 <= j < i implies r[j].0 != "status"@ by {
        if j == 0 {
            assert(r[0].0 == "title"@);
        } else if j == 1 {
            assert(r[1].0 == "kind"@);
        } else {
            assert(r[2].0 == "description"@);
        }
    }
}

/// Double create: once CREATE PROJECT `p` has succeeded, CREATE PROJECT
/// `p` again is `ProjectAlreadyExists(p)` and changes nothing.
pub proof fn law_double_create(
    d: DatabaseV,
    n: DatabaseV,
    n2: DatabaseV,
    p: Seq<char>,
    display: Option<Seq<char>>,
    description: Option<Seq<char>>,
    owner: Seq<char>,
    vouched: bool,
    r: Result<ExecutionResult, BackendError>,
    display2: Option<Seq<char>>,
    description2: Option<Seq<char>>,
    owner2: Seq<char>,
    vouched2: bool,
    r2: Result<ExecutionResult, BackendError>,
)
    requires
        create_project_outcome(d, n, p, display, description, owner, vouched, r),
        r is Ok,
        create_project_outcome(n, n2, p, display2, description2, owner2, vouched2, r2),
    ensures
        r2 matches Err(BackendError::ProjectAlreadyExists(s)) && s@ == p,
        n2 == n,
{
    lemma_set_then_get(d.projects, p, crate::records::project_record(description, owner, display));
}

/// Closing twice: once CLOSE ISSUE `id` has succeeded, CLOSE ISSUE `id`
/// again is `IssueAlreadyClosed(id, reason)` with the reason recorded by
/// the first, and changes nothing.
pub proof fn law_close_twice(
    d: DatabaseV,
    n: DatabaseV,
    n2: DatabaseV,
    id: Seq<char>,
    reason: Option<CloseReason>,
    reason2: Option<CloseReason>,
    r: Result<ExecutionResult, BackendError>,
    r2: Result<ExecutionResult, BackendError>,
)
    requires
        close_outcome(d, n, id, reason, r),
        r is Ok,
        close_outcome(n, n2, id, reason2, r2),
    ensures
        r2 matches Err(BackendError::IssueAlreadyClosed(i, why)) && i@ == id && why
            == reason_or_done(reason),
        n2 == n,
{
    let rec = table_get(d.issues, id)->0;
    let closed = record_put(rec, "status"@, ValueV::Closed(reason_or_done(reason)));
    lemma_set_then_get(d.issues, id, closed);
    lemma_put_then_lookup(rec, "status"@, ValueV::Closed(reason_or_done(reason)));
}

/// Reopening an issue that is not closed reports zero rows and changes
/// nothing.
pub proof fn law_reopen_open_issue(
    d: DatabaseV,
    n: DatabaseV,
    id: Seq<char>,
    r: Result<ExecutionResult, BackendError>,
)
    requires
        reopen_outcome(d, n, id, r),
        table_get(d.issues, id) matches Some(rec) && !(lookup(rec, "status"@) matches Some(
            ValueV::Closed(_),
        )),
    ensures
        r matches Ok(res) && res.rows == 0,
        n == d,
{
}

pub proof fn lemma_first_undeclared(us: Seq<FieldUpdate>, kind: EntityType, i: int)
    requires
        0 <= i < us.len(),
        !declared_fields(kind).contains(us[i].field@),
    ensures
        first_undeclared(us, kind) matches Some(j) && 0 <= j <= i && !declared_fields(
            kind,
        ).contains(us[j].field@),
    decreases us.len(),
{
    if declared_fields(kind).contains(us[0].field@) {
        let rest = us.subrange(1, us.len() as int);
        assert(rest[i - 1] == us[i]);
        lemma_first_undeclared(rest, kind, i - 1);
        let j = first_undeclared(rest, kind)->0;
        assert(rest[j] == us[j + 1]);
    }
}

/// Schema-known fields: an UPDATE that names a field which the record type
/// does not declare is `FieldNotFound` for such a field, and no record
/// changes.
pub proof fn law_unknown_field(
    d: DatabaseV,
    n: DatabaseV,
    kind: EntityType,
    id: Seq<char>,
    updates: Seq<FieldUpdate>,
    r: Result<ExecutionResult, BackendError>,
    i: int,
)
    requires
        update_outcome(d, n, kind, id, updates, r),
        table_get(crate::engine::table_of(d, kind), id) is Some,
        0 <= i < updates.len(),
        !declared_fields(kind).contains(updates[i].field@),
    ensures
        r matches Err(BackendError::FieldNotFound(f)) && !declared_fields(kind).contains(f@),
        n == d,
{
    lemma_first_undeclared(updates, kind, i);
}

/// In a table with unique keys that holds `k`, exactly one row is under `k`.
pub proof fn lemma_one_row_under_key(t: TableV, k: Seq<char>)
    requires
        keys_unique(t),
        has_key(t, k),
    ensures
        t.filter(key_is(k)).len() == 1,
    decreases t.len(),
{
    reveal(Seq::filter);
    lemma_key_position(t, k);
    let s = t.drop_last();
    if t.last().0 == k {
        assert forall|j: int| 0 <= j < s.len() implies !key_is(k)(s[j]) by {
            assert(s[j] == t[j]);
            assert(t[j].0 != t[t.len() - 1].0);
        }
        lemma_no_row_under_key(s, k);
    } else {
        let i = key_position(t, k)->0;
        assert(i < s.len());
        assert(s[i] == t[i]);
        lemma_key_position(s, k);
        assert(keys_unique(s)) by {
            assert forall|a: int, b: int| 0 <= a < s.len() && 0 <= b < s.len() && a != b implies s[a].0
                != s[b].0 by {
                assert(s[a] == t[a] && s[b] == t[b]);
            }
        }
        lemma_one_row_under_key(s, k);
    }
}

pub proof fn lemma_no_row_under_key(t: TableV, k: Seq<char>)
    requires
        forall|j: int| 0 <= j < t.len() ==> !key_is(k)(#[trigger] t[j]),
    ensures
        t.filter(key_is(k)).len() == 0,
    decreases t.len(),
{
    reveal(Seq::filter);
    if t.len() > 0 {
        let s = t.drop_last();
        assert forall|j: int| 0 <= j < s.len() implies !key_is(k)(#[trigger] s[j]) by {
            assert(s[j] == t[j]);
        }
        lemma_no_row_under_key(s, k);
        assert(!key_is(k)(t[t.len() - 1]));
    }
}

/// Cascade completeness: after DELETE PROJECT `p` no project row is under
/// `p`, no issue belongs to `p`, and no comment is on an issue that
/// belonged to `p`; the rows counted are the project row, the `n` issues
/// of `p`, and the comments on them.
pub proof fn law_cascade_delete(d: DatabaseV, p: Seq<char>)
    requires
        crate::engine::db_wf(d),
        has_key(d.projects, p),
    ensures
        ({
            let n = after_project_delete(d, p);
            let gone = d.issues.filter(in_project(p));
            &&& !has_key(n.projects, p)
            &&& forall|i: int|
                0 <= i < n.issues.len() ==> lookup(#[trigger] n.issues[i].1, "project"@) != Some(
                    ValueV::Str(p),
                )
            &&& forall|i: int, k: int|
                0 <= i < n.comments.len() && 0 <= k < gone.len() ==> lookup(
                    #[trigger] n.comments[i].1,
                    "issue"@,
                ) != Some(ValueV::Str(#[trigger] keys_of(gone)[k]))
            &&& total_rows(d) - total_rows(n) == 1 + gone.len() + d.comments.filter(
                on_issues(keys_of(gone)),
            ).len()
        }),
{
    let n = after_project_delete(d, p);
    let gone = d.issues.filter(in_project(p));
    let ids = keys_of(gone);
    lemma_key_position(n.projects, p);
    if key_position(n.projects, p) is Some {
        let i = key_position(n.projects, p)->0;
        assert(key_is_not(p)(n.projects[i]));
    }
    assert forall|i: int| 0 <= i < n.issues.len() implies lookup(
        #[trigger] n.issues[i].1,
        "project"@,
    ) != Some(ValueV::Str(p)) by {
        assert(crate::engine::not_in_project(p)(n.issues[i]));
    }
    assert forall|i: int, k: int| 0 <= i < n.comments.len() && 0 <= k < gone.len() implies lookup(
        #[trigger] n.comments[i].1,
        "issue"@,
    ) != Some(ValueV::Str(#[trigger] keys_of(gone)[k])) by {
        assert(crate::engine::not_on_issues(ids)(n.comments[i]));
    }
    lemma_filter_split(d.projects, key_is_not(p), key_is(p));
    lemma_filter_split(d.issues, crate::engine::not_in_project(p), in_project(p));
    lemma_filter_split(d.comments, crate::engine::not_on_issues(ids), on_issues(ids));
    lemma_one_row_under_key(d.projects, p);
}

} // verus!
