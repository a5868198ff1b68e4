//! A verified query pipeline for a small issue tracker: a lexer and a
//! recursive-descent parser for its query language, a filter evaluator over
//! records seen as field maps, and an execution engine over keyed tables.

pub mod ast;
pub mod backend;
pub mod config;
pub mod engine;
pub mod exec;
pub mod filter;
pub mod laws;
pub mod lexer;
pub mod parser;
pub mod records;
pub mod render;
pub mod select;
pub mod table;
pub mod text;
pub mod value;

pub use ast::{
    AssignStatement, CloseReason, CloseStatement, Columns, CommentId, CommentStatement,
    ComparisonOp, CreateStatement, DeleteStatement, DeleteTarget, EntityType, FieldUpdate,
    FilterExpression, IdHelper, IqlValue, IssueId, IssueKind, OrderBy, OrderDirection, ParseError,
    ParseResult, Priority, ProjectId, ReopenStatement, SelectStatement, Statement, UpdateStatement,
    UpdateTarget, UserId,
};
pub use backend::{
    Action, AuthenticationInfo, AuthorizationProvider, AuthorizationResult, AuthorizationStatus,
    Backend, BackendError, Entry, ExecutionResult, IqlError, LoginInfo, Resource,
    SingleUserAuthorizationProvider, SingleUserUserProvider, UserProvider,
};
pub use config::{Cli, Config};
pub use engine::{Database, DatabaseType};
pub use exec::run_query;
pub use lexer::{tokenize, unescape_string, Token};
pub use parser::{parse_query, Parser};
pub use records::{CommentInfo, IssueInfo, IssueStatus, ProjectInfo, UserInfo};
pub use table::Table;
pub use value::{FieldValue, Record};
