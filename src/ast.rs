use vstd::prelude::*;

use crate::text::copy_str;

verus! {

/// Conversion between an id type and its string form.
pub trait IdHelper: Sized {
    fn id_from_str(val: &str) -> Self;

    fn str_from_id(&self) -> &str;
}

impl IdHelper for String {
    fn id_from_str(val: &str) -> (r: String)
        ensures
            r@ == val@,
    {
        copy_str(val)
    }

    fn str_from_id(&self) -> (r: &str)
        ensures
            r@ == self@,
    {
        self.as_str()
    }
}

/// The id of a user.
#[derive(Debug, Clone, PartialEq)]
pub struct UserId(pub String);

/// The id of a project.
#[derive(Debug, Clone, PartialEq)]
pub struct ProjectId(pub String);

/// The id of an issue, `<project>#<number>`.
#[derive(Debug, Clone, PartialEq)]
pub struct IssueId(pub String);

/// The id of a comment.
#[derive(Debug, Clone, PartialEq)]
pub struct CommentId(pub String);

impl UserId {
    pub fn new(s: &str) -> (r: UserId)
        ensures
            r.0@ == s@,
    {
        UserId(copy_str(s))
    }
}

impl ProjectId {
    pub fn new(s: &str) -> (r: ProjectId)
        ensures
            r.0@ == s@,
    {
        ProjectId(copy_str(s))
    }
}

impl IssueId {
    pub fn new(s: &str) -> (r: IssueId)
        ensures
            r.0@ == s@,
    {
        IssueId(copy_str(s))
    }
}

impl CommentId {
    pub fn new(s: &str) -> (r: CommentId)
        ensures
            r.0@ == s@,
    {
        CommentId(copy_str(s))
    }
}

impl IdHelper for UserId {
    fn id_from_str(val: &str) -> (r: UserId)
        ensures
            r.0@ == val@,
    {
        UserId::new(val)
    }

    fn str_from_id(&self) -> (r: &str)
        ensures
            r@ == self.0@,
    {
        self.0.as_str()
    }
}

impl IdHelper for ProjectId {
    fn id_from_str(val: &str) -> (r: ProjectId)
        ensures
            r.0@ == val@,
    {
        ProjectId::new(val)
    }

    fn str_from_id(&self) -> (r: &str)
        ensures
            r@ == self.0@,
    {
        self.0.as_str()
    }
}

impl IdHelper for IssueId {
    fn id_from_str(val: &str) -> (r: IssueId)
        ensures
            r.0@ == val@,
    {
        IssueId::new(val)
    }

    fn str_from_id(&self) -> (r: &str)
        ensures
            r@ == self.0@,
    {
        self.0.as_str()
    }
}

impl IdHelper for CommentId {
    fn id_from_str(val: &str) -> (r: CommentId)
        ensures
            r.0@ == val@,
    {
        CommentId::new(val)
    }

    fn str_from_id(&self) -> (r: &str)
        ensures
            r@ == self.0@,
    {
        self.0.as_str()
    }
}

/// How urgent an issue is.
#[derive(Debug, Clone, Copy, PartialEq, Eq, Structural)]
pub enum Priority {
    Critical,
    High,
    Medium,
    Low,
}

/// The upper-case name of a priority.
pub open spec fn priority_name(p: Priority) -> Seq<char> {
    match p {
        Priority::Critical => "CRITICAL"@,
        Priority::High => "HIGH"@,
        Priority::Medium => "MEDIUM"@,
        Priority::Low => "LOW"@,
    }
}

impl Priority {
    /// The upper-case name, as a priority is written in records.
    pub fn name(&self) -> (r: String)
        ensures
            r@ == priority_name(*self),
    {
        match self {
            Priority::Critical => copy_str("CRITICAL"),
            Priority::High => copy_str("HIGH"),
            Priority::Medium => copy_str("MEDIUM"),
            Priority::Low => copy_str("LOW"),
        }
    }
}

/// Why an issue was closed.
#[derive(Debug, Clone, Copy, PartialEq, Eq, Structural)]
pub enum CloseReason {
    Done,
    Duplicate,
    WontFix,
}

impl Default for CloseReason {
    fn default() -> (r: CloseReason)
        ensures
            r == CloseReason::Done,
    {
        CloseReason::Done
    }
}

pub open spec fn close_reason_name(r: CloseReason) -> Seq<char> {
    match r {
        CloseReason::Done => "DONE"@,
        CloseReason::Duplicate => "DUPLICATE"@,
        CloseReason::WontFix => "WONTFIX"@,
    }
}

impl CloseReason {
    /// The upper-case name of the reason.
    pub fn name(&self) -> (r: String)
        ensures
            r@ == close_reason_name(*self),
    {
        match self {
            CloseReason::Done => copy_str("DONE"),
            CloseReason::Duplicate => copy_str("DUPLICATE"),
            CloseReason::WontFix => copy_str("WONTFIX"),
        }
    }
}

/// The kind of an issue.
#[derive(Debug, Clone, Copy, PartialEq, Eq, Structural)]
pub enum IssueKind {
    Epic,
    Improvement,
    Bug,
    Task,
}

pub open spec fn issue_kind_name(k: IssueKind) -> Seq<char> {
    match k {
        IssueKind::Epic => "Epic"@,
        IssueKind::Improvement => "Improvement"@,
        IssueKind::Bug => "Bug"@,
        IssueKind::Task => "Task"@,
    }
}

impl IssueKind {
    /// The name under which the kind is stored in an issue record.
    pub fn name(&self) -> (r: String)
        ensures
            r@ == issue_kind_name(*self),
    {
        match self {
            IssueKind::Epic => copy_str("Epic"),
            IssueKind::Improvement => copy_str("Improvement"),
            IssueKind::Bug => copy_str("Bug"),
            IssueKind::Task => copy_str("Task"),
        }
    }
}

/// The entity kinds that a SELECT reads from.
#[derive(Debug, Clone, Copy, PartialEq, Eq, Structural)]
pub enum EntityType {
    Users,
    Projects,
    Issues,
    Comments,
}

pub open spec fn entity_kind_name(e: EntityType) -> Seq<char> {
    match e {
        EntityType::Users => "USER"@,
        EntityType::Projects => "PROJECT"@,
        EntityType::Issues => "ISSUE"@,
        EntityType::Comments => "COMMENT"@,
    }
}

pub open spec fn entity_table_name(e: EntityType) -> Seq<char> {
    match e {
        EntityType::Users => "users"@,
        EntityType::Projects => "projects"@,
        EntityType::Issues => "issues"@,
        EntityType::Comments => "comments"@,
    }
}

impl EntityType {
    /// The upper-case singular name of the kind.
    pub fn kind(&self) -> (r: String)
        ensures
            r@ == entity_kind_name(*self),
    {
        match self {
            EntityType::Users => copy_str("USER"),
            EntityType::Projects => copy_str("PROJECT"),
            EntityType::Issues => copy_str("ISSUE"),
            EntityType::Comments => copy_str("COMMENT"),
        }
    }

    /// The lower-case plural name, as written after FROM.
    pub fn table_name(&self) -> (r: String)
        ensures
            r@ == entity_table_name(*self),
    {
        match self {
            EntityType::Users => copy_str("users"),
            EntityType::Projects => copy_str("projects"),
            EntityType::Issues => copy_str("issues"),
            EntityType::Comments => copy_str("comments"),
        }
    }
}

/// The columns of a SELECT.
#[derive(Debug, Clone, PartialEq)]
pub enum Columns {
    All,
    Named(Vec<String>),
}

impl Columns {
    /// The number of named columns; `usize::MAX` for the wildcard.
    pub fn len(&self) -> (r: usize)
        ensures
            match self {
                Columns::All => r == usize::MAX,
                Columns::Named(c) => r == c@.len(),
            },
    {
        match self {
            Columns::All => usize::MAX,
            Columns::Named(cols) => cols.len(),
        }
    }
}

/// A comparison in a filter.
#[derive(Debug, Clone, Copy, PartialEq, Eq, Structural)]
pub enum ComparisonOp {
    Equal,
    NotEqual,
    GreaterThan,
    LessThan,
    GreaterThanOrEqual,
    LessThanOrEqual,
    Like,
}

#[derive(Debug, Clone, Copy, PartialEq, Eq, Structural)]
pub enum OrderDirection {
    Asc,
    Desc,
}

/// The ORDER BY clause of a SELECT.
#[derive(Debug, Clone, PartialEq)]
pub struct OrderBy {
    pub field: String,
    pub direction: OrderDirection,
}

/// A literal value of the query language.
#[derive(Debug, Clone, PartialEq)]
pub enum IqlValue {
    String(String),
    Integer(i64),
    UnsignedInteger(u64),
    /// A decimal, kept as written.
    Float(String),
    Boolean(bool),
    Null,
    Priority(Priority),
    /// A bare identifier used as a value, as in `owner = alice`.
    Identifier(String),
}

/// A boolean filter over records.
#[derive(Debug, PartialEq)]
pub enum FilterExpression {
    Comparison { field: String, op: ComparisonOp, value: IqlValue },
    And(Box<FilterExpression>, Box<FilterExpression>),
    Or(Box<FilterExpression>, Box<FilterExpression>),
    Not(Box<FilterExpression>),
    In { field: String, values: Vec<IqlValue> },
    IsNull(String),
    IsNotNull(String),
}

impl Clone for FilterExpression {
    fn clone(&self) -> (r: FilterExpression)
        decreases self,
    {
        match self {
            FilterExpression::Comparison { field, op, value } => FilterExpression::Comparison {
                field: field.clone(),
                op: *op,
                value: value.clone(),
            },
            FilterExpression::And(a, b) => {
                let l = (**a).clone();
                let r = (**b).clone();
                FilterExpression::And(Box::new(l), Box::new(r))
            },
            FilterExpression::Or(a, b) => {
                let l = (**a).clone();
                let r = (**b).clone();
                FilterExpression::Or(Box::new(l), Box::new(r))
            },
            FilterExpression::Not(a) => {
                let l = (**a).clone();
                FilterExpression::Not(Box::new(l))
            },
            FilterExpression::In { field, values } => FilterExpression::In {
                field: field.clone(),
                values: values.clone(),
            },
            FilterExpression::IsNull(f) => FilterExpression::IsNull(f.clone()),
            FilterExpression::IsNotNull(f) => FilterExpression::IsNotNull(f.clone()),
        }
    }
}

#[derive(Debug, Clone, PartialEq)]
pub enum CreateStatement {
    User { username: String, email: Option<String>, name: Option<String> },
    Project {
        project_id: ProjectId,
        name: Option<String>,
        description: Option<String>,
        owner: Option<UserId>,
    },
    Issue {
        project: ProjectId,
        kind: IssueKind,
        title: String,
        description: Option<String>,
        priority: Option<Priority>,
        assignee: Option<UserId>,
    },
}

#[derive(Debug, Clone, PartialEq)]
pub struct SelectStatement {
    pub columns: Columns,
    pub from: EntityType,
    pub filter: Option<FilterExpression>,
    pub order_by: Option<OrderBy>,
    pub limit: Option<u64>,
    pub offset: Option<u64>,
}

#[derive(Debug, Clone, PartialEq)]
pub enum UpdateTarget {
    User(UserId),
    Project(ProjectId),
    Issue(IssueId),
    Comment(CommentId),
}

impl UpdateTarget {
    /// The id of the target, as written.
    pub fn id(&self) -> (r: &str)
        ensures
            r@ == match self {
                UpdateTarget::User(UserId(id)) => id@,
                UpdateTarget::Project(ProjectId(id)) => id@,
                UpdateTarget::Issue(IssueId(id)) => id@,
                UpdateTarget::Comment(CommentId(id)) => id@,
            },
    {
        match self {
            UpdateTarget::User(UserId(id)) => id.as_str(),
            UpdateTarget::Project(ProjectId(id)) => id.as_str(),
            UpdateTarget::Issue(IssueId(id)) => id.as_str(),
            UpdateTarget::Comment(CommentId(id)) => id.as_str(),
        }
    }

    /// The upper-case name of the target's kind.
    pub fn kind(&self) -> (r: String)
        ensures
            r@ == match self {
                UpdateTarget::User(_) => "USER"@,
                UpdateTarget::Project(_) => "PROJECT"@,
                UpdateTarget::Issue(_) => "ISSUE"@,
                UpdateTarget::Comment(_) => "COMMENT"@,
            },
    {
        match self {
            UpdateTarget::User(_) => copy_str("USER"),
            UpdateTarget::Project(_) => copy_str("PROJECT"),
            UpdateTarget::Issue(_) => copy_str("ISSUE"),
            UpdateTarget::Comment(_) => copy_str("COMMENT"),
        }
    }
}

/// One `field = value` of an UPDATE.
#[derive(Debug, Clone, PartialEq)]
pub struct FieldUpdate {
    pub field: String,
    pub value: IqlValue,
}

#[derive(Debug, Clone, PartialEq)]
pub struct UpdateStatement {
    pub entity: UpdateTarget,
    pub updates: Vec<FieldUpdate>,
}

#[derive(Debug, Clone, PartialEq)]
pub enum DeleteTarget {
    User(UserId),
    Project(ProjectId),
    Issue(IssueId),
    Comment(CommentId),
}

#[derive(Debug, Clone, PartialEq)]
pub struct DeleteStatement {
    pub entity: DeleteTarget,
}

#[derive(Debug, Clone, PartialEq)]
pub struct AssignStatement {
    pub issue_id: IssueId,
    pub assignee: UserId,
}

#[derive(Debug, Clone, PartialEq)]
pub struct CloseStatement {
    pub issue_id: IssueId,
    pub reason: Option<CloseReason>,
}

#[derive(Debug, Clone, PartialEq)]
pub struct ReopenStatement {
    pub issue_id: IssueId,
}

#[derive(Debug, Clone, PartialEq)]
pub struct CommentStatement {
    pub issue_id: IssueId,
    pub content: String,
}

/// A parsed statement of the query language.
#[derive(Debug, Clone, PartialEq)]
pub enum Statement {
    Create(CreateStatement),
    Select(SelectStatement),
    Update(UpdateStatement),
    Delete(DeleteStatement),
    Assign(AssignStatement),
    Close(CloseStatement),
    Reopen(ReopenStatement),
    Comment(CommentStatement),
}

/// What can go wrong while parsing a statement.
#[derive(Debug, Clone, PartialEq)]
pub enum ParseError {
    UnexpectedEof,
    UnexpectedToken { expected: String, found: String, position: usize },
    InvalidSyntax { message: String, position: usize },
    InvalidNumber { value: String, position: usize },
    InvalidIdentifier { value: String, position: usize },
    UnterminatedString { position: usize },
    InvalidEntityType { value: String, position: usize },
    InvalidPriority { value: String, position: usize },
    InvalidCloseReason { value: String, position: usize },
    InvalidIssueKind { value: String, position: usize },
    MissingClause { clause: String, position: usize },
    InvalidIssueId { value: String, position: usize },
    General(String),
}

pub type ParseResult<T> = Result<T, ParseError>;

} // verus!
