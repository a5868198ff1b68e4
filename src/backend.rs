use vstd::prelude::*;

use crate::ast::{CloseReason, ParseError, UserId};
use crate::text::{concat_str, copy_str, str_eq};
use crate::value::Record;

verus! {

/// What the execution engine can report.
#[derive(Debug, Clone, PartialEq)]
pub enum BackendError {
    PermissionDenied(String),
    ProjectAlreadyExists(String),
    UserNotFound { id: String },
    ItemNotFound { kind: String, id: String },
    IssueAlreadyClosed(String, CloseReason),
    FieldNotFound(String),
    ImplementationSpecific(String),
    InvalidId(String),
    NotImplemented,
    NotSupported,
}

/// Any error of the query pipeline: a statement that does not parse, or
/// one that the engine refuses.
#[derive(Debug, Clone, PartialEq)]
pub enum IqlError {
    MalformedIql(ParseError),
    Backend(BackendError),
}

#[derive(Debug, Clone, Copy, PartialEq, Eq, Structural)]
pub enum Action {
    Create,
    Delete,
    Update,
}

#[derive(Debug, Clone, Copy, PartialEq, Eq, Structural)]
pub enum Resource {
    User,
    Project,
    Issue,
    Comment,
}

#[derive(Debug, Clone, Copy, PartialEq, Eq, Structural)]
pub enum AuthorizationStatus {
    Authorized,
    Denied,
}

/// A decision of an authorization provider.
#[derive(Debug, Clone, PartialEq)]
pub struct AuthorizationResult {
    pub user: UserId,
    pub action: Action,
    pub resource: Resource,
    pub status: AuthorizationStatus,
}

/// Decides whether a principal may act on a resource.
pub trait AuthorizationProvider {
    fn check_authorization(
        &self,
        principal: &UserId,
        action: Action,
        resource: Resource,
        context: Option<&Record>,
    ) -> Result<AuthorizationResult, BackendError>;
}

/// Maps an opaque token to a principal.
pub trait UserProvider {
    fn get_user(&self, token: &str) -> Result<UserId, BackendError>;
}

/// The id of the only user of a single-user setup.
pub open spec fn default_user() -> Seq<char> {
    "default"@
}

/// A user provider that answers every token with the user `default`.
pub struct SingleUserUserProvider;

impl SingleUserUserProvider {
    /// The principal this provider answers with.
    pub fn principal(&self) -> (r: UserId)
        ensures
            r.0@ == default_user(),
    {
        UserId::new("default")
    }
}

impl UserProvider for SingleUserUserProvider {
    fn get_user(&self, _token: &str) -> (r: Result<UserId, BackendError>)
        ensures
            r matches Ok(u) && u.0@ == default_user(),
    {
        Ok(self.principal())
    }
}

/// An authorization provider that authorizes the user `default` only.
pub struct SingleUserAuthorizationProvider;

impl SingleUserAuthorizationProvider {
    /// Authorizes `principal` iff it is `default`; any other principal gets
    /// `PermissionDenied`.
    pub fn decide(&self, principal: &UserId, action: Action, resource: Resource) -> (r: Result<
        AuthorizationResult,
        BackendError,
    >)
        ensures
            principal.0@ == default_user() ==> (r matches Ok(a) && a.status
                == AuthorizationStatus::Authorized && a.user == *principal && a.action == action
                && a.resource == resource),
            principal.0@ != default_user() ==> (r matches Err(BackendError::PermissionDenied(_))),
    {
        if str_eq(principal.0.as_str(), "default") {
            Ok(
                AuthorizationResult {
                    user: UserId(principal.0.clone()),
                    action,
                    resource,
                    status: AuthorizationStatus::Authorized,
                },
            )
        } else {
            let a = concat_str("User '", principal.0.as_str());
            let msg = concat_str(a.as_str(), "' is not authorized");
            Err(BackendError::PermissionDenied(msg))
        }
    }
}

impl AuthorizationProvider for SingleUserAuthorizationProvider {
    fn check_authorization(
        &self,
        principal: &UserId,
        action: Action,
        resource: Resource,
        _context: Option<&Record>,
    ) -> (r: Result<AuthorizationResult, BackendError>)
        ensures
            principal.0@ == default_user() ==> (r matches Ok(a) && a.status
                == AuthorizationStatus::Authorized && a.user == *principal && a.action == action
                && a.resource == resource),
            principal.0@ != default_user() ==> (r matches Err(BackendError::PermissionDenied(_))),
    {
        self.decide(principal, action, resource)
    }
}

/// A record with its key, as a SELECT returns it.
#[derive(Debug, Clone, PartialEq)]
pub struct Entry<K, V> {
    pub key: K,
    pub value: V,
}

/// What the engine returns for a statement that succeeded.
#[derive(Debug, Clone, PartialEq)]
pub struct ExecutionResult {
    pub rows: u128,
    pub info: Option<String>,
    pub data: Option<String>,
}

impl ExecutionResult {
    pub fn new(rows: u128) -> (r: ExecutionResult)
        ensures
            r.rows == rows,
            r.info is None,
            r.data is None,
    {
        ExecutionResult { rows, info: None, data: None }
    }

    pub fn one() -> (r: ExecutionResult)
        ensures
            r.rows == 1,
            r.info is None,
            r.data is None,
    {
        ExecutionResult::new(1)
    }

    pub fn zero() -> (r: ExecutionResult)
        ensures
            r.rows == 0,
            r.info is None,
            r.data is None,
    {
        ExecutionResult::new(0)
    }

    /// Counts one more affected row.
    pub fn inc(&mut self)
        requires
            old(self).rows < u128::MAX,
        ensures
            final(self).rows == old(self).rows + 1,
            final(self).info == old(self).info,
            final(self).data == old(self).data,
    {
        self.rows = self.rows + 1;
    }

    pub fn with_info(self, info: &str) -> (r: ExecutionResult)
        ensures
            r.rows == self.rows,
            r.info matches Some(i) && i@ == info@,
            r.data == self.data,
    {
        ExecutionResult { rows: self.rows, info: Some(copy_str(info)), data: self.data }
    }

    pub fn with_data(self, data: String) -> (r: ExecutionResult)
        ensures
            r.rows == self.rows,
            r.info == self.info,
            r.data == Some(data),
    {
        ExecutionResult { rows: self.rows, info: self.info, data: Some(data) }
    }
}

/// How a user proves who they are.
#[derive(Debug, Clone, PartialEq)]
pub enum AuthenticationInfo {
    Password { password: String },
    Token { token: String },
    Certificate { path: Vec<u8> },
}

#[derive(Debug, Clone, PartialEq)]
pub struct LoginInfo {
    pub user: String,
    pub auth: AuthenticationInfo,
}

/// Setup hooks of a storage backend.
pub trait Backend {
    fn init(&mut self) {
    }

    fn run_migrations(&mut self) {
    }
}

} // verus!
