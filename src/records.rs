use vstd::prelude::*;

use crate::ast::{
    issue_kind_name, priority_name, CloseReason, EntityType, FieldUpdate, IssueId, IssueKind,
    Priority, ProjectId, UserId,
};
use crate::backend::BackendError;
use crate::text::{copy_str, str_eq};
use crate::value::{field, lift, lift_value, position_of, FieldValue, Record, RecordV, ValueV, find_field, lemma_position_of, fields_view};

verus! {

/// A field that is written only when it has a value.
pub open spec fn opt_field(name: Seq<char>, v: Option<Seq<char>>) -> RecordV {
    match v {
        Some(s) => seq![(name, ValueV::Str(s))],
        None => seq![],
    }
}

pub open spec fn str_view(s: Option<String>) -> Option<Seq<char>> {
    match s {
        Some(x) => Some(x@),
        None => None,
    }
}

/// The record of a new project.
pub open spec fn project_record(
    description: Option<Seq<char>>,
    owner: Seq<char>,
    display: Option<Seq<char>>,
) -> RecordV {
    opt_field("description"@, description) + seq![("owner"@, ValueV::Str(owner))] + opt_field(
        "display"@,
        display,
    )
}

/// The record of a new issue; its status is `Open`.
pub open spec fn issue_record(
    title: Seq<char>,
    kind: IssueKind,
    description: Option<Seq<char>>,
    project: Seq<char>,
    priority: Option<Priority>,
    assignee: Seq<char>,
) -> RecordV {
    issue_fields(title, kind, description, ValueV::Str("Open"@), project, priority, assignee)
}

/// How a status is stored: `Open`, `Assigned` and `Blocked` by name, a
/// closed status with its reason.
pub open spec fn status_value(s: IssueStatus) -> ValueV {
    match s {
        IssueStatus::Open => ValueV::Str("Open"@),
        IssueStatus::Assigned => ValueV::Str("Assigned"@),
        IssueStatus::Blocked => ValueV::Str("Blocked"@),
        IssueStatus::Closed { reason } => ValueV::Closed(reason),
    }
}

/// The record of an issue with the given status.
pub open spec fn issue_fields(
    title: Seq<char>,
    kind: IssueKind,
    description: Option<Seq<char>>,
    status: ValueV,
    project: Seq<char>,
    priority: Option<Priority>,
    assignee: Seq<char>,
) -> RecordV {
    seq![("title"@, ValueV::Str(title)), ("kind"@, ValueV::Str(issue_kind_name(kind)))] + opt_field(
        "description"@,
        description,
    ) + seq![("status"@, status), ("project"@, ValueV::Str(project))] + opt_field(
        "priority"@,
        match priority {
            Some(p) => Some(priority_name(p)),
            None => None,
        },
    ) + seq![("assignee"@, ValueV::Str(assignee))]
}

/// The record of a new comment.
pub open spec fn comment_record(
    issue: Seq<char>,
    created_at: int,
    content: Seq<char>,
    author: Seq<char>,
) -> RecordV {
    seq![
        ("issue"@, ValueV::Str(issue)),
        ("created_at"@, ValueV::Number(created_at)),
        ("content"@, ValueV::Str(content)),
        ("author"@, ValueV::Str(author)),
    ]
}

/// The record of a user.
pub open spec fn user_record(name: Seq<char>, display: Option<Seq<char>>, email: Seq<char>) -> RecordV {
    seq![("name"@, ValueV::Str(name))] + opt_field("display"@, display) + seq![
        ("email"@, ValueV::Str(email)),
    ]
}

/// The fields that the record type of an entity kind declares.
pub open spec fn declared_fields(kind: EntityType) -> Seq<Seq<char>> {
    match kind {
        EntityType::Users => seq!["name"@, "display"@, "email"@],
        EntityType::Projects => seq!["description"@, "owner"@, "display"@],
        EntityType::Issues => seq![
            "title"@,
            "kind"@,
            "description"@,
            "status"@,
            "project"@,
            "priority"@,
            "assignee"@,
        ],
        EntityType::Comments => seq!["issue"@, "created_at"@, "content"@, "author"@],
    }
}

/// Whether the record type of `kind` declares the field `name`.
pub fn is_declared(kind: EntityType, name: &str) -> (r: bool)
    ensures
        r == declared_fields(kind).contains(name@),
{
    let ghost d = declared_fields(kind);
    let r = match kind {
        EntityType::Users => str_eq(name, "name") || str_eq(name, "display") || str_eq(name, "email"),
        EntityType::Projects => str_eq(name, "description") || str_eq(name, "owner") || str_eq(
            name,
            "display",
        ),
        EntityType::Issues => str_eq(name, "title") || str_eq(name, "kind") || str_eq(
            name,
            "description",
        ) || str_eq(name, "status") || str_eq(name, "project") || str_eq(name, "priority")
            || str_eq(name, "assignee"),
        EntityType::Comments => str_eq(name, "issue") || str_eq(name, "created_at") || str_eq(
            name,
            "content",
        ) || str_eq(name, "author"),
    };
    proof {
        if r {
            assert(d.contains(name@)) by {
                let i = choose|i: int| 0 <= i < d.len() && d[i] == name@;
                if kind == EntityType::Users {
                    if name@ == "name"@ { assert(d[0] == name@); }
                    else if name@ == "display"@ { assert(d[1] == name@); }
                    else { assert(d[2] == name@); }
                }
                else if kind == EntityType::Projects {
                    if name@ == "description"@ { assert(d[0] == name@); }
                    else if name@ == "owner"@ { assert(d[1] == name@); }
                    else { assert(d[2] == name@); }
                }
                else if kind == EntityType::Issues {
                    if name@ == "title"@ { assert(d[0] == name@); }
                    else if name@ == "kind"@ { assert(d[1] == name@); }
                    else if name@ == "description"@ { assert(d[2] == name@); }
                    else if name@ == "status"@ { assert(d[3] == name@); }
                    else if name@ == "project"@ { assert(d[4] == name@); }
                    else if name@ == "priority"@ { assert(d[5] == name@); }
                    else { assert(d[6] == name@); }
                }
                else {
                    if name@ == "issue"@ { assert(d[0] == name@); }
                    else if name@ == "created_at"@ { assert(d[1] == name@); }
                    else if name@ == "content"@ { assert(d[2] == name@); }
                    else { assert(d[3] == name@); }
                }
            }
        } else {
            assert(!d.contains(name@)) by {
                if d.contains(name@) {
                    let i = choose|i: int| 0 <= i < d.len() && d[i] == name@;
                }
            }
        }
    }
    r
}

/// The record with field `name` set to `v`: in place if present, else
/// appended.
pub open spec fn record_put(r: RecordV, name: Seq<char>, v: ValueV) -> RecordV {
    match position_of(r, name) {
        Some(i) => r.update(i, (name, v)),
        None => r.push((name, v)),
    }
}

/// The record after the updates, applied in order.
pub open spec fn apply_updates(r: RecordV, us: Seq<FieldUpdate>) -> RecordV
    decreases us.len(),
{
    if us.len() == 0 {
        r
    } else {
        record_put(apply_updates(r, us.drop_last()), us.last().field@, lift(us.last().value))
    }
}

/// Index of the first update whose field the kind does not declare.
pub open spec fn first_undeclared(us: Seq<FieldUpdate>, kind: EntityType) -> Option<int>
    decreases us.len(),
{
    if us.len() == 0 {
        None
    } else if !declared_fields(kind).contains(us[0].field@) {
        Some(0)
    } else {
        match first_undeclared(us.subrange(1, us.len() as int), kind) {
            Some(i) => Some(i + 1),
            None => None,
        }
    }
}

/// Sets the field `name` of the record to `v`.
pub fn put_field(r: &mut Record, name: &str, v: FieldValue)
    ensures
        final(r)@ == record_put(old(r)@, name@, v@),
{
    proof { lemma_position_of(r@, name@); }
    match find_field(r, name) {
        Some(i) => {
            let f = field(name, v);
            r.fields.set(i, f);
        },
        None => {
            let f = field(name, v);
            r.fields.push(f);
        },
    }
    assert(final(r)@ =~= record_put(old(r)@, name@, v@));
}

impl FieldUpdate {
    /// Writes this update into a record of kind `kind`; a field that the kind
    /// does not declare gives `FieldNotFound` and leaves the record as it was.
    pub fn apply_to(&self, r: &mut Record, kind: EntityType) -> (res: Result<(), BackendError>)
        ensures
            declared_fields(kind).contains(self.field@) ==> res is Ok && final(r)@ == record_put(
                old(r)@,
                self.field@,
                lift(self.value),
            ),
            !declared_fields(kind).contains(self.field@) ==> (res matches Err(
                BackendError::FieldNotFound(f),
            ) && f@ == self.field@ && final(r)@ == old(r)@),
    {
        if !is_declared(kind, self.field.as_str()) {
            return Err(BackendError::FieldNotFound(self.field.clone()));
        }
        put_field(r, self.field.as_str(), lift_value(&self.value));
        Ok(())
    }
}

/// Applies all updates to a copy of the record, or names the first field
/// that the kind does not declare.
pub fn updated_record(rec: &Record, us: &Vec<FieldUpdate>, kind: EntityType) -> (r: Result<Record, BackendError>)
    ensures
        match first_undeclared(us@, kind) {
            Some(i) => r matches Err(BackendError::FieldNotFound(f)) && f@ == us@[i].field@,
            None => r matches Ok(n) && n@ == apply_updates(rec@, us@),
        },
{
    let mut out = rec.copy();
    let mut i: usize = 0;
    assert(us@.subrange(0, us@.len() as int) =~= us@);
    assert(us@.subrange(0, 0) =~= Seq::<FieldUpdate>::empty());
    while i < us.len()
        invariant
            i <= us@.len(),
            out@ == apply_updates(rec@, us@.subrange(0, i as int)),
            first_undeclared(us@, kind) == match first_undeclared(us@.subrange(i as int, us@.len() as int), kind) {
                Some(k) => Some(k + i),
                None => None,
            },
        decreases us@.len() - i,
    {
        let ghost rest = us@.subrange(i as int, us@.len() as int);
        assert(rest[0] == us@[i as int]);
        assert(rest.subrange(1, rest.len() as int) =~= us@.subrange(i + 1, us@.len() as int));
        assert(us@.subrange(0, i + 1).drop_last() =~= us@.subrange(0, i as int));
        match us[i].apply_to(&mut out, kind) {
            Ok(()) => {},
            Err(e) => {
                return Err(e);
            },
        }
        i = i + 1;
    }
    assert(us@.subrange(0, us@.len() as int) =~= us@);
    Ok(out)
}

fn opt_push(fields: &mut Vec<(String, FieldValue)>, name: &str, v: &Option<String>)
    ensures
        fields_view(final(fields)@) == fields_view(old(fields)@) + opt_field(name@, str_view(*v)),
{
    let ghost before = fields@;
    match v {
        Some(s) => {
            fields.push(field(name, FieldValue::Str(s.clone())));
        },
        None => {},
    }
    assert(fields_view(final(fields)@) =~= fields_view(before) + opt_field(name@, str_view(*v)));
}

fn push_str(fields: &mut Vec<(String, FieldValue)>, name: &str, s: String)
    ensures
        fields_view(final(fields)@) == fields_view(old(fields)@) + seq![(name@, ValueV::Str(s@))],
{
    let ghost before = fields@;
    fields.push(field(name, FieldValue::Str(s)));
    assert(fields_view(final(fields)@) =~= fields_view(before) + seq![(name@, ValueV::Str(s@))]);
}

/// Builds the record of a new project.
pub fn new_project_record(description: &Option<String>, owner: &str, display: &Option<String>) -> (r: Record)
    ensures
        r@ == project_record(str_view(*description), owner@, str_view(*display)),
{
    let mut f: Vec<(String, FieldValue)> = Vec::new();
    assert(fields_view(f@) =~= Seq::<(Seq<char>, ValueV)>::empty());
    opt_push(&mut f, "description", description);
    push_str(&mut f, "owner", copy_str(owner));
    opt_push(&mut f, "display", display);
    let r = Record { fields: f };
    assert(r@ =~= project_record(str_view(*description), owner@, str_view(*display)));
    r
}

/// Builds the record of a new issue.
pub fn new_issue_record(
    title: &str,
    kind: IssueKind,
    description: &Option<String>,
    project: &str,
    priority: Option<Priority>,
    assignee: &str,
) -> (r: Record)
    ensures
        r@ == issue_record(title@, kind, str_view(*description), project@, priority, assignee@),
{
    issue_record_with(title, kind, description, FieldValue::Str(copy_str("Open")), project, priority, assignee)
}

/// Builds the record of an issue with the status value `status`.
pub fn issue_record_with(
    title: &str,
    kind: IssueKind,
    description: &Option<String>,
    status: FieldValue,
    project: &str,
    priority: Option<Priority>,
    assignee: &str,
) -> (r: Record)
    ensures
        r@ == issue_fields(title@, kind, str_view(*description), status@, project@, priority, assignee@),
{
    let mut f: Vec<(String, FieldValue)> = Vec::new();
    assert(fields_view(f@) =~= Seq::<(Seq<char>, ValueV)>::empty());
    push_str(&mut f, "title", copy_str(title));
    push_str(&mut f, "kind", kind.name());
    opt_push(&mut f, "description", description);
    let ghost before = f@;
    f.push(field("status", status));
    assert(fields_view(f@) =~= fields_view(before) + seq![("status"@, status@)]);
    push_str(&mut f, "project", copy_str(project));
    let p: Option<String> = match priority {
        Some(p) => Some(p.name()),
        None => None,
    };
    opt_push(&mut f, "priority", &p);
    push_str(&mut f, "assignee", copy_str(assignee));
    let r = Record { fields: f };
    assert(r@ =~= issue_fields(title@, kind, str_view(*description), status@, project@, priority, assignee@));
    r
}

/// Builds the record of a new comment.
pub fn new_comment_record(issue: &str, created_at: i128, content: &str, author: &str) -> (r: Record)
    ensures
        r@ == comment_record(issue@, created_at as int, content@, author@),
{
    let mut f: Vec<(String, FieldValue)> = Vec::new();
    assert(fields_view(f@) =~= Seq::<(Seq<char>, ValueV)>::empty());
    push_str(&mut f, "issue", copy_str(issue));
    let ghost before = f@;
    f.push(field("created_at", FieldValue::Number(created_at)));
    assert(fields_view(f@) =~= fields_view(before) + seq![("created_at"@, ValueV::Number(created_at as int))]);
    push_str(&mut f, "content", copy_str(content));
    push_str(&mut f, "author", copy_str(author));
    let r = Record { fields: f };
    assert(r@ =~= comment_record(issue@, created_at as int, content@, author@));
    r
}

/// Builds the record of a user.
pub fn new_user_record(name: &str, display: &Option<String>, email: &str) -> (r: Record)
    ensures
        r@ == user_record(name@, str_view(*display), email@),
{
    let mut f: Vec<(String, FieldValue)> = Vec::new();
    assert(fields_view(f@) =~= Seq::<(Seq<char>, ValueV)>::empty());
    push_str(&mut f, "name", copy_str(name));
    opt_push(&mut f, "display", display);
    push_str(&mut f, "email", copy_str(email));
    let r = Record { fields: f };
    assert(r@ =~= user_record(name@, str_view(*display), email@));
    r
}

/// A user, as a typed record.
#[derive(Debug, Clone, PartialEq)]
pub struct UserInfo {
    pub name: String,
    pub display: Option<String>,
    pub email: String,
}

/// A project, as a typed record.
#[derive(Debug, Clone, PartialEq)]
pub struct ProjectInfo {
    pub description: Option<String>,
    pub owner: UserId,
    pub display: Option<String>,
}

/// Where an issue stands.
#[derive(Debug, Clone, Copy, PartialEq, Eq, Structural)]
pub enum IssueStatus {
    Open,
    Assigned,
    Blocked,
    Closed { reason: CloseReason },
}

/// An issue, as a typed record.
#[derive(Debug, Clone, PartialEq)]
pub struct IssueInfo {
    pub title: String,
    pub kind: IssueKind,
    pub description: Option<String>,
    pub status: IssueStatus,
    pub project: ProjectId,
    pub priority: Option<Priority>,
    pub assignee: UserId,
}

/// A comment, as a typed record; `created_at` is in nanoseconds since 1970.
#[derive(Debug, Clone, PartialEq)]
pub struct CommentInfo {
    pub issue: IssueId,
    pub created_at: i128,
    pub content: String,
    pub author: UserId,
}

impl UserInfo {
    /// The user's field map.
    pub fn to_record(&self) -> (r: Record)
        ensures
            r@ == user_record(self.name@, str_view(self.display), self.email@),
    {
        new_user_record(self.name.as_str(), &self.display, self.email.as_str())
    }
}

impl ProjectInfo {
    /// The project's field map.
    pub fn to_record(&self) -> (r: Record)
        ensures
            r@ == project_record(str_view(self.description), self.owner.0@, str_view(self.display)),
    {
        new_project_record(&self.description, self.owner.0.as_str(), &self.display)
    }
}

impl IssueStatus {
    /// How the status is stored in a record.
    pub fn to_value(&self) -> (r: FieldValue)
        ensures
            r@ == status_value(*self),
    {
        match self {
            IssueStatus::Open => FieldValue::Str(copy_str("Open")),
            IssueStatus::Assigned => FieldValue::Str(copy_str("Assigned")),
            IssueStatus::Blocked => FieldValue::Str(copy_str("Blocked")),
            IssueStatus::Closed { reason } => FieldValue::Closed(*reason),
        }
    }
}

impl IssueInfo {
    /// Whether the issue is closed.
    pub fn is_closed(&self) -> (r: bool)
        ensures
            r == (self.status is Closed),
    {
        matches!(self.status, IssueStatus::Closed { .. })
    }

    /// The issue's field map.
    pub fn to_record(&self) -> (r: Record)
        ensures
            r@ == issue_fields(
                self.title@,
                self.kind,
                str_view(self.description),
                status_value(self.status),
                self.project.0@,
                self.priority,
                self.assignee.0@,
            ),
    {
        issue_record_with(
            self.title.as_str(),
            self.kind,
            &self.description,
            self.status.to_value(),
            self.project.0.as_str(),
            self.priority,
            self.assignee.0.as_str(),
        )
    }
}

impl CommentInfo {
    /// The comment's field map.
    pub fn to_record(&self) -> (r: Record)
        ensures
            r@ == comment_record(self.issue.0@, self.created_at as int, self.content@, self.author.0@),
    {
        new_comment_record(self.issue.0.as_str(), self.created_at, self.content.as_str(), self.author.0.as_str())
    }
}

} // verus!
