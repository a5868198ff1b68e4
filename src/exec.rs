use vstd::prelude::*;

use crate::ast::{
    CommentId, CreateStatement, DeleteTarget, EntityType, FieldUpdate, IssueId, ProjectId,
    Statement, UpdateTarget, UserId,
};
use crate::backend::{
    Action, AuthorizationProvider, AuthorizationStatus, BackendError, ExecutionResult, IqlError,
    Resource, UserProvider,
};
use crate::parser::{parse_query, query_ok, query_parsed};
use crate::engine::{
    after_issue_delete, after_project_delete, assign_outcome, close_outcome, comment_outcome,
    create_issue_outcome, create_project_outcome, is_item_not_found, reopen_outcome, total_rows,
    table_of, update_outcome, with_comments, Database, DatabaseV,
};
use crate::records::{comment_record, issue_record, str_view};
use crate::lexer::is_ident_char;
use crate::render::{json_rows, render_rows};
use crate::select::selected_rows;
use crate::table::{has_key, table_get, table_remove, TableV};
use crate::text::{concat_str, copy_str, str_eq};
use crate::value::{field, lookup, FieldValue, Record, RecordV, ValueV};

verus! {

/// Relies on `nanoid::format` with `nanoid::rngs::default` and
/// `nanoid::alphabet::SAFE`, which is what `nanoid!()` expands to: 21
/// characters of the URL-safe alphabet `_-0-9a-zA-Z`.
#[verifier::external_body]
fn random_id() -> (r: String)
    ensures
        r@.len() == 21,
        forall|i: int| 0 <= i < 21 ==> is_ident_char(#[trigger] r@[i]),
{
    nanoid::format(nanoid::rngs::default, &nanoid::alphabet::SAFE, 21)
}

/// Relies on `time::UtcDateTime::now` and
/// `UtcDateTime::unix_timestamp_nanos`: the current time in nanoseconds
/// since 1970.
#[verifier::external_body]
fn now_nanos() -> (r: i128) {
    time::UtcDateTime::now().unix_timestamp_nanos()
}

/// What an UPDATE of comment `id` by `principal` does, given the
/// authorization provider's decision: a missing comment is
/// `ItemNotFound`; a decision other than `Authorized`, or a principal that
/// is not the comment's author, is `PermissionDenied`; otherwise the
/// update goes as for any record.
pub open spec fn comment_update_outcome(
    d: DatabaseV,
    n: DatabaseV,
    principal: Seq<char>,
    id: Seq<char>,
    updates: Seq<FieldUpdate>,
    decision: AuthorizationStatus,
    r: Result<ExecutionResult, BackendError>,
) -> bool {
    match table_get(d.comments, id) {
        None => is_item_not_found(r, "COMMENT"@, id) && n == d,
        Some(rec) => if decision != AuthorizationStatus::Authorized || lookup(rec, "author"@) != Some(
            ValueV::Str(principal),
        ) {
            (r matches Err(BackendError::PermissionDenied(_))) && n == d
        } else {
            update_outcome(d, n, EntityType::Comments, id, updates, r)
        },
    }
}

/// What `execute` does with `query` on the database `d`, giving `n`: a
/// statement that fails leaves the database as it was; a statement that
/// needs the user provider (CREATE without OWNER or ASSIGNEE, COMMENT, an
/// UPDATE of a comment) has its library checks made first, and then acts as
/// its operation does for the principal that came back.
pub open spec fn execute_outcome(
    d: DatabaseV,
    n: DatabaseV,
    query: Statement,
    r: Result<ExecutionResult, BackendError>,
) -> bool {
    &&& (r is Err ==> n == d)
    &&& match query {
                Statement::Select(s) => (s.from == EntityType::Users ==> (r matches Err(
                    BackendError::NotSupported,
                ))) && (s.from != EntityType::Users ==> (r matches Ok(res) && select_answer(
                    res,
                    selected_rows(table_of(d, s.from), s),
                ))) && n == d,
                Statement::Create(CreateStatement::User { .. }) => r matches Err(
                    BackendError::NotSupported,
                ),
                Statement::Create(
                    CreateStatement::Project { project_id, name, description, owner },
                ) => if has_key(d.projects, project_id.0@) {
                    (r matches Err(BackendError::ProjectAlreadyExists(s)) && s@ == project_id.0@) && n == d
                } else {
                    match owner {
                        Some(u) => create_project_outcome(
                            d,
                            n,
                            project_id.0@,
                            str_view(name),
                            str_view(description),
                            u.0@,
                            false,
                            r,
                        ),
                        None => r is Err || exists|u: UserId|
                            #[trigger] create_project_outcome(
                                d,
                                n,
                                project_id.0@,
                                str_view(name),
                                str_view(description),
                                u.0@,
                                true,
                                r,
                            ),
                    }
                },
                Statement::Create(
                    CreateStatement::Issue { project, kind, title, description, priority, assignee },
                ) => if !has_key(d.projects, project.0@) {
                    is_item_not_found(r, "PROJECT"@, project.0@) && n == d
                } else if d.issues.len() >= u64::MAX {
                    r is Err && n == d
                } else {
                    match assignee {
                        Some(u) => create_issue_outcome(
                            d,
                            n,
                            project.0@,
                            issue_record(title@, kind, str_view(description), project.0@, priority, u.0@),
                            r,
                        ),
                        None => r is Err || exists|u: UserId|
                            #[trigger] create_issue_outcome(
                                d,
                                n,
                                project.0@,
                                issue_record(title@, kind, str_view(description), project.0@, priority, u.0@),
                                r,
                            ),
                    }
                },
                Statement::Comment(c) => (!has_key(d.issues, c.issue_id.0@) ==> is_item_not_found(
                    r,
                    "ISSUE"@,
                    c.issue_id.0@,
                ) && n == d) && (r is Err || exists|u: UserId, id: Seq<char>, at: int|
                    id.len() == 22 && id[0] == 'C' && #[trigger] comment_outcome(
                        d,
                        n,
                        c.issue_id.0@,
                        id,
                        comment_record(c.issue_id.0@, at, c.content@, u.0@),
                        r,
                    )),
                Statement::Update(u) => match u.entity {
                    UpdateTarget::User(_) => r matches Err(BackendError::NotSupported),
                    UpdateTarget::Project(ProjectId(id)) => update_outcome(
                        d,
                        n,
                        EntityType::Projects,
                        id@,
                        u.updates@,
                        r,
                    ),
                    UpdateTarget::Issue(IssueId(id)) => update_outcome(
                        d,
                        n,
                        EntityType::Issues,
                        id@,
                        u.updates@,
                        r,
                    ),
                    UpdateTarget::Comment(CommentId(id)) => (table_get(d.comments, id@) is None
                        ==> is_item_not_found(r, "COMMENT"@, id@) && n == d) && (r is Err || exists|
                        who: UserId,
                        decision: AuthorizationStatus,
                    |
                        #[trigger] comment_update_outcome(
                            d,
                            n,
                            who.0@,
                            id@,
                            u.updates@,
                            decision,
                            r,
                        )),
                },
                Statement::Delete(del) => match del.entity {
                    DeleteTarget::User(_) => r matches Err(BackendError::NotSupported),
                    DeleteTarget::Project(ProjectId(id)) => (r matches Ok(res) && res.rows
                        == total_rows(d) - total_rows(n)) && n
                        == after_project_delete(d, id@),
                    DeleteTarget::Issue(IssueId(id)) => (r matches Ok(res) && res.rows
                        == total_rows(d) - total_rows(n)) && n
                        == after_issue_delete(d, id@),
                    DeleteTarget::Comment(CommentId(id)) => (r matches Ok(res) && res.rows
                        == total_rows(d) - total_rows(n)) && n
                        == with_comments(d, table_remove(d.comments, id@)),
                },
                Statement::Assign(a) => assign_outcome(
                    d,
                    n,
                    a.issue_id.0@,
                    a.assignee.0@,
                    r,
                ),
                Statement::Close(c) => close_outcome(
                    d,
                    n,
                    c.issue_id.0@,
                    c.reason,
                    r,
                ),
                Statement::Reopen(c) => reopen_outcome(d, n, c.issue_id.0@, r),
            }
}

/// The answer to a SELECT of `rows`: no rows affected, and the rows
/// rendered as JSON both as data and as info.
pub open spec fn select_answer(res: ExecutionResult, rows: TableV) -> bool {
    res.rows == 0 && match (res.data, res.info) {
        (Some(d), Some(i)) => d@ == json_rows(rows) && i@ == d@,
        _ => false,
    }
}

/// The context handed to the authorization provider for an update of a
/// comment: its author, as `owner`.
pub open spec fn comment_context_of(rec: RecordV) -> RecordV {
    seq![
        ("owner"@, match lookup(rec, "author"@) {
            Some(v) => v,
            None => ValueV::Null,
        }),
    ]
}

impl Database {
    /// The authorization context of comment `id`, if it exists.
    pub fn comment_context(&self, id: &str) -> (r: Option<Record>)
        ensures
            match table_get(self@.comments, id@) {
                Some(rec) => r matches Some(c) && c@ == comment_context_of(rec),
                None => r is None,
            },
    {
        match self.comments.get(id) {
            Some(rec) => {
                let owner = match rec.get("author") {
                    Some(v) => crate::value::copy_value(v),
                    None => FieldValue::Null,
                };
                let c = Record { fields: vec![field("owner", owner)] };
                assert(c@ =~= comment_context_of(rec@));
                Some(c)
            },
            None => None,
        }
    }

    /// UPDATE COMMENT by `principal`, given the authorization decision.
    pub fn update_comment_as(
        &mut self,
        principal: &UserId,
        id: &str,
        updates: &Vec<FieldUpdate>,
        decision: AuthorizationStatus,
    ) -> (r: Result<ExecutionResult, BackendError>)
        requires
            old(self).wf(),
        ensures
            final(self).wf(),
            comment_update_outcome(old(self)@, final(self)@, principal.0@, id@, updates@, decision, r),
    {
        let author_ok = match self.comments.get(id) {
            None => {
                return Err(BackendError::ItemNotFound { kind: copy_str("COMMENT"), id: copy_str(id) });
            },
            Some(rec) => match rec.get("author") {
                Some(FieldValue::Str(a)) => str_eq(a.as_str(), principal.0.as_str()),
                _ => false,
            },
        };
        if !matches!(decision, AuthorizationStatus::Authorized) {
            return Err(BackendError::PermissionDenied(copy_str("User is not authorized to edit comments")));
        }
        if !author_ok {
            return Err(BackendError::PermissionDenied(copy_str("Cannot edit comments authored by other users")));
        }
        self.update_entity(EntityType::Comments, id, updates)
    }

    /// Runs one statement. A statement that fails leaves the database as it
    /// was. The principal comes from `user_provider`; updates of comments
    /// go through `authorization_provider`.
    pub fn execute<UP: UserProvider, AP: AuthorizationProvider>(
        &mut self,
        user_provider: &UP,
        authorization_provider: &AP,
        query: &Statement,
    ) -> (r: Result<ExecutionResult, BackendError>)
        requires
            old(self).wf(),
        ensures
            final(self).wf(),
            execute_outcome(old(self)@, final(self)@, *query, r),
    {
        match query {
            Statement::Select(s) => {
                let rows = match self.select_rows(s) {
                    Ok(v) => v,
                    Err(e) => {
                        return Err(e);
                    },
                };
                let text = render_rows(&rows);
                let res = ExecutionResult::zero().with_info(text.as_str());
                Ok(res.with_data(text))
            },
            Statement::Create(c) => match c {
                CreateStatement::User { .. } => Err(BackendError::NotSupported),
                CreateStatement::Project { project_id, name, description, owner } => {
                    if self.projects.contains(project_id.0.as_str()) {
                        return Err(BackendError::ProjectAlreadyExists(project_id.0.clone()));
                    }
                    match owner {
                        Some(u) => self.create_project(u, false, project_id.0.as_str(), name, description),
                        None => {
                            let principal = match user_provider.get_user("") {
                                Ok(u) => u,
                                Err(e) => {
                                    return Err(e);
                                },
                            };
                            self.create_project(&principal, true, project_id.0.as_str(), name, description)
                        },
                    }
                },
                CreateStatement::Issue { project, kind, title, description, priority, assignee } => {
                    if !self.projects.contains(project.0.as_str()) {
                        return Err(
                            BackendError::ItemNotFound { kind: copy_str("PROJECT"), id: project.0.clone() },
                        );
                    }
                    if self.issues.rows.len() as u128 >= u64::MAX as u128 {
                        return Err(BackendError::ImplementationSpecific(copy_str("too many issues")));
                    }
                    match assignee {
                        Some(u) => self.create_issue(u, project.0.as_str(), *kind, title.as_str(), description, *priority),
                        None => {
                            let principal = match user_provider.get_user("") {
                                Ok(u) => u,
                                Err(e) => {
                                    return Err(e);
                                },
                            };
                            self.create_issue(
                                &principal,
                                project.0.as_str(),
                                *kind,
                                title.as_str(),
                                description,
                                *priority,
                            )
                        },
                    }
                },
            },
            Statement::Update(u) => match &u.entity {
                UpdateTarget::User(_) => Err(BackendError::NotSupported),
                UpdateTarget::Project(ProjectId(id)) => self.update_entity(
                    EntityType::Projects,
                    id.as_str(),
                    &u.updates,
                ),
                UpdateTarget::Issue(IssueId(id)) => self.update_entity(
                    EntityType::Issues,
                    id.as_str(),
                    &u.updates,
                ),
                UpdateTarget::Comment(CommentId(id)) => {
                    let context = match self.comment_context(id.as_str()) {
                        Some(c) => c,
                        None => {
                            return Err(
                                BackendError::ItemNotFound {
                                    kind: copy_str("COMMENT"),
                                    id: id.clone(),
                                },
                            );
                        },
                    };
                    let principal = match user_provider.get_user("") {
                        Ok(u) => u,
                        Err(e) => {
                            return Err(e);
                        },
                    };
                    let decision = match authorization_provider.check_authorization(
                        &principal,
                        Action::Update,
                        Resource::Comment,
                        Some(&context),
                    ) {
                        Ok(d) => d,
                        Err(e) => {
                            return Err(e);
                        },
                    };
                    self.update_comment_as(&principal, id.as_str(), &u.updates, decision.status)
                },
            },
            Statement::Delete(d) => match &d.entity {
                DeleteTarget::User(_) => Err(BackendError::NotSupported),
                DeleteTarget::Project(ProjectId(id)) => Ok(self.delete_project(id.as_str())),
                DeleteTarget::Issue(IssueId(id)) => Ok(self.delete_issue(id.as_str())),
                DeleteTarget::Comment(CommentId(id)) => Ok(self.delete_comment(id.as_str())),
            },
            Statement::Assign(a) => self.assign_issue(a.issue_id.0.as_str(), &a.assignee),
            Statement::Close(c) => self.close_issue(c.issue_id.0.as_str(), c.reason),
            Statement::Reopen(c) => self.reopen_issue(c.issue_id.0.as_str()),
            Statement::Comment(c) => {
                if !self.issues.contains(c.issue_id.0.as_str()) {
                    return Err(
                        BackendError::ItemNotFound { kind: copy_str("ISSUE"), id: c.issue_id.0.clone() },
                    );
                }
                let author = match user_provider.get_user("") {
                    Ok(u) => u,
                    Err(e) => {
                        return Err(e);
                    },
                };
                let token = random_id();
                let comment_id = concat_str("C", token.as_str());
                proof {
                    reveal_strlit("C");
                }
                assert(comment_id@.len() == 22 && comment_id@[0] == 'C');
                let now = now_nanos();
                let r = self.add_comment(
                    c.issue_id.0.as_str(),
                    c.content.as_str(),
                    &author,
                    comment_id.as_str(),
                    now,
                );
                assert(comment_outcome(
                    old(self)@,
                    self@,
                    c.issue_id.0@,
                    comment_id@,
                    comment_record(c.issue_id.0@, now as int, c.content@, author.0@),
                    r,
                ));
                r
            },
        }
    }
}

/// A result of the engine as a result of the whole pipeline.
pub open spec fn backend_result(r: Result<ExecutionResult, BackendError>) -> Result<ExecutionResult, IqlError> {
    match r {
        Ok(x) => Ok(x),
        Err(e) => Err(IqlError::Backend(e)),
    }
}

/// Parses `query` and runs it. A query that does not parse, or a statement
/// that fails, leaves the database as it was.
pub fn run_query<UP: UserProvider, AP: AuthorizationProvider>(
    db: &mut Database,
    user_provider: &UP,
    authorization_provider: &AP,
    query: &str,
) -> (r: Result<ExecutionResult, IqlError>)
    requires
        old(db).wf(),
    ensures
        final(db).wf(),
        r is Err ==> final(db)@ == old(db)@,
        (r matches Err(IqlError::MalformedIql(_))) <==> !query_ok(query@),
        query_ok(query@) ==> exists|st: Statement, e: Result<ExecutionResult, BackendError>|
            #![trigger execute_outcome(old(db)@, final(db)@, st, e)]
            query_parsed(query@, st) && execute_outcome(old(db)@, final(db)@, st, e) && r
                == backend_result(e),
{
    match parse_query(query) {
        Ok(st) => {
            let e = db.execute(user_provider, authorization_provider, &st);
            let ghost e0 = e;
            let r = match e {
                Ok(res) => Ok(res),
                Err(e) => Err(IqlError::Backend(e)),
            };
            assert(query_parsed(query@, st) && execute_outcome(old(db)@, db@, st, e0) && r
                == backend_result(e0));
            r
        },
        Err(e) => Err(IqlError::MalformedIql(e)),
    }
}

} // verus!
