use vstd::prelude::*;

use crate::ast::{
    AssignStatement, CloseReason, CloseStatement, Columns, CommentId, CommentStatement,
    ComparisonOp, CreateStatement, DeleteStatement, DeleteTarget, EntityType, FieldUpdate,
    FilterExpression, IqlValue, IssueId, IssueKind, OrderBy, OrderDirection, ParseError,
    ParseResult, Priority, ProjectId, ReopenStatement, SelectStatement, Statement, UpdateStatement,
    UpdateTarget, UserId,
};
use crate::engine::issue_key;
use crate::lexer::{copy_range, field_name_of, lex, lex_chars, view_tokens, LexFailure, Token, TokenV};
use crate::text::{chars_of, concat_str, copy_str, push_decimal, string_from_chars};

verus! {

/// The token at `p`; past the end, `Eof`.
pub open spec fn tok(t: Seq<TokenV>, p: int) -> TokenV {
    if 0 <= p < t.len() {
        t[p]
    } else {
        TokenV::Eof
    }
}

/// A number for each kind of token, payload aside.
pub open spec fn kind_of(t: TokenV) -> int {
    match t {
        TokenV::Create => 0,
        TokenV::Select => 1,
        TokenV::Update => 2,
        TokenV::Delete => 3,
        TokenV::Assign => 4,
        TokenV::Close => 5,
        TokenV::Reopen => 6,
        TokenV::Comment => 7,
        TokenV::From => 8,
        TokenV::Where => 9,
        TokenV::And => 10,
        TokenV::Or => 11,
        TokenV::Not => 12,
        TokenV::In => 13,
        TokenV::Of => 14,
        TokenV::Is => 15,
        TokenV::Null => 16,
        TokenV::SetKw => 17,
        TokenV::To => 18,
        TokenV::On => 19,
        TokenV::With => 20,
        TokenV::Order => 21,
        TokenV::By => 22,
        TokenV::Limit => 23,
        TokenV::Offset => 24,
        TokenV::Asc => 25,
        TokenV::Desc => 26,
        TokenV::Like => 27,
        TokenV::User => 28,
        TokenV::Project => 29,
        TokenV::Issue => 30,
        TokenV::Issues => 31,
        TokenV::Users => 32,
        TokenV::Projects => 33,
        TokenV::Comments => 34,
        TokenV::Email => 35,
        TokenV::Name => 36,
        TokenV::Title => 37,
        TokenV::Kind => 38,
        TokenV::Description => 39,
        TokenV::Priority => 40,
        TokenV::Assignee => 41,
        TokenV::Owner => 42,
        TokenV::Duplicate => 43,
        TokenV::WontFix => 44,
        TokenV::Done => 45,
        TokenV::Epic => 46,
        TokenV::Improvement => 47,
        TokenV::Bug => 48,
        TokenV::Task => 49,
        TokenV::Critical => 50,
        TokenV::High => 51,
        TokenV::Medium => 52,
        TokenV::Low => 53,
        TokenV::True => 54,
        TokenV::False => 55,
        TokenV::String(_) => 56,
        TokenV::Integer(_) => 57,
        TokenV::UnsignedInteger(_) => 58,
        TokenV::Float(_) => 59,
        TokenV::Identifier(_) => 60,
        TokenV::Star => 61,
        TokenV::Comma => 62,
        TokenV::Dot => 63,
        TokenV::Hash => 64,
        TokenV::Equal => 65,
        TokenV::NotEqual => 66,
        TokenV::GreaterThan => 67,
        TokenV::LessThan => 68,
        TokenV::GreaterOrEqual => 69,
        TokenV::LessOrEqual => 70,
        TokenV::LeftParen => 71,
        TokenV::RightParen => 72,
        TokenV::LeftBracket => 73,
        TokenV::RightBracket => 74,
        TokenV::Eof => 75,
    }
}

fn kind_index(t: &Token) -> (r: u8)
    ensures
        r as int == kind_of(t@),
{
    match t {
        Token::Create => 0,
        Token::Select => 1,
        Token::Update => 2,
        Token::Delete => 3,
        Token::Assign => 4,
        Token::Close => 5,
        Token::Reopen => 6,
        Token::Comment => 7,
        Token::From => 8,
        Token::Where => 9,
        Token::And => 10,
        Token::Or => 11,
        Token::Not => 12,
        Token::In => 13,
        Token::Of => 14,
        Token::Is => 15,
        Token::Null => 16,
        Token::SetKw => 17,
        Token::To => 18,
        Token::On => 19,
        Token::With => 20,
        Token::Order => 21,
        Token::By => 22,
        Token::Limit => 23,
        Token::Offset => 24,
        Token::Asc => 25,
        Token::Desc => 26,
        Token::Like => 27,
        Token::User => 28,
        Token::Project => 29,
        Token::Issue => 30,
        Token::Issues => 31,
        Token::Users => 32,
        Token::Projects => 33,
        Token::Comments => 34,
        Token::Email => 35,
        Token::Name => 36,
        Token::Title => 37,
        Token::Kind => 38,
        Token::Description => 39,
        Token::Priority => 40,
        Token::Assignee => 41,
        Token::Owner => 42,
        Token::Duplicate => 43,
        Token::WontFix => 44,
        Token::Done => 45,
        Token::Epic => 46,
        Token::Improvement => 47,
        Token::Bug => 48,
        Token::Task => 49,
        Token::Critical => 50,
        Token::High => 51,
        Token::Medium => 52,
        Token::Low => 53,
        Token::True => 54,
        Token::False => 55,
        Token::String(_) => 56,
        Token::Integer(_) => 57,
        Token::UnsignedInteger(_) => 58,
        Token::Float(_) => 59,
        Token::Identifier(_) => 60,
        Token::Star => 61,
        Token::Comma => 62,
        Token::Dot => 63,
        Token::Hash => 64,
        Token::Equal => 65,
        Token::NotEqual => 66,
        Token::GreaterThan => 67,
        Token::LessThan => 68,
        Token::GreaterOrEqual => 69,
        Token::LessOrEqual => 70,
        Token::LeftParen => 71,
        Token::RightParen => 72,
        Token::LeftBracket => 73,
        Token::RightBracket => 74,
        Token::Eof => 75,
    }
}

/// A short description of a token for error messages.
fn describe(t: &Token) -> String {
    match t {
        Token::String(s) => concat_str("string ", s.as_str()),
        Token::Integer(_) => copy_str("integer"),
        Token::UnsignedInteger(_) => copy_str("number"),
        Token::Float(s) => copy_str(s.as_str()),
        Token::Identifier(s) => copy_str(s.as_str()),
        Token::Eof => copy_str("end of input"),
        Token::Create => copy_str("CREATE"),
        Token::Select => copy_str("SELECT"),
        Token::Update => copy_str("UPDATE"),
        Token::Delete => copy_str("DELETE"),
        Token::Assign => copy_str("ASSIGN"),
        Token::Close => copy_str("CLOSE"),
        Token::Reopen => copy_str("REOPEN"),
        Token::Comment => copy_str("COMMENT"),
        Token::From => copy_str("FROM"),
        Token::Where => copy_str("WHERE"),
        Token::And => copy_str("AND"),
        Token::Or => copy_str("OR"),
        Token::Not => copy_str("NOT"),
        Token::In => copy_str("IN"),
        Token::Of => copy_str("OF"),
        Token::Is => copy_str("IS"),
        Token::Null => copy_str("NULL"),
        Token::SetKw => copy_str("SET"),
        Token::To => copy_str("TO"),
        Token::On => copy_str("ON"),
        Token::With => copy_str("WITH"),
        Token::Order => copy_str("ORDER"),
        Token::By => copy_str("BY"),
        Token::Limit => copy_str("LIMIT"),
        Token::Offset => copy_str("OFFSET"),
        Token::Asc => copy_str("ASC"),
        Token::Desc => copy_str("DESC"),
        Token::Like => copy_str("LIKE"),
        Token::User => copy_str("USER"),
        Token::Project => copy_str("PROJECT"),
        Token::Issue => copy_str("ISSUE"),
        Token::Issues => copy_str("ISSUES"),
        Token::Users => copy_str("USERS"),
        Token::Projects => copy_str("PROJECTS"),
        Token::Comments => copy_str("COMMENTS"),
        Token::Email => copy_str("EMAIL"),
        Token::Name => copy_str("NAME"),
        Token::Title => copy_str("TITLE"),
        Token::Kind => copy_str("KIND"),
        Token::Description => copy_str("DESCRIPTION"),
        Token::Priority => copy_str("PRIORITY"),
        Token::Assignee => copy_str("ASSIGNEE"),
        Token::Owner => copy_str("OWNER"),
        Token::Duplicate => copy_str("DUPLICATE"),
        Token::WontFix => copy_str("WONTFIX"),
        Token::Done => copy_str("DONE"),
        Token::Epic => copy_str("EPIC"),
        Token::Improvement => copy_str("IMPROVEMENT"),
        Token::Bug => copy_str("BUG"),
        Token::Task => copy_str("TASK"),
        Token::Critical => copy_str("CRITICAL"),
        Token::High => copy_str("HIGH"),
        Token::Medium => copy_str("MEDIUM"),
        Token::Low => copy_str("LOW"),
        Token::True => copy_str("TRUE"),
        Token::False => copy_str("FALSE"),
        Token::Star => copy_str("*"),
        Token::Comma => copy_str(","),
        Token::Dot => copy_str("."),
        Token::Hash => copy_str("#"),
        Token::Equal => copy_str("="),
        Token::NotEqual => copy_str("!="),
        Token::GreaterThan => copy_str(">"),
        Token::LessThan => copy_str("<"),
        Token::GreaterOrEqual => copy_str(">="),
        Token::LessOrEqual => copy_str("<="),
        Token::LeftParen => copy_str("("),
        Token::RightParen => copy_str(")"),
        Token::LeftBracket => copy_str("["),
        Token::RightBracket => copy_str("]"),
    }
}

/// Which priority a token names.
pub open spec fn priority_of(t: TokenV) -> Option<Priority> {
    match t {
        TokenV::Critical => Some(Priority::Critical),
        TokenV::High => Some(Priority::High),
        TokenV::Medium => Some(Priority::Medium),
        TokenV::Low => Some(Priority::Low),
        _ => None,
    }
}

pub open spec fn close_reason_of(t: TokenV) -> Option<CloseReason> {
    match t {
        TokenV::Done => Some(CloseReason::Done),
        TokenV::Duplicate => Some(CloseReason::Duplicate),
        TokenV::WontFix => Some(CloseReason::WontFix),
        _ => None,
    }
}

pub open spec fn issue_kind_of(t: TokenV) -> Option<IssueKind> {
    match t {
        TokenV::Epic => Some(IssueKind::Epic),
        TokenV::Improvement => Some(IssueKind::Improvement),
        TokenV::Bug => Some(IssueKind::Bug),
        TokenV::Task => Some(IssueKind::Task),
        _ => None,
    }
}

pub open spec fn entity_type_of(t: TokenV) -> Option<EntityType> {
    match t {
        TokenV::Users => Some(EntityType::Users),
        TokenV::Projects => Some(EntityType::Projects),
        TokenV::Issues => Some(EntityType::Issues),
        TokenV::Comments => Some(EntityType::Comments),
        _ => None,
    }
}

pub open spec fn comparison_of(t: TokenV) -> Option<ComparisonOp> {
    match t {
        TokenV::Equal => Some(ComparisonOp::Equal),
        TokenV::NotEqual => Some(ComparisonOp::NotEqual),
        TokenV::GreaterThan => Some(ComparisonOp::GreaterThan),
        TokenV::LessThan => Some(ComparisonOp::LessThan),
        TokenV::GreaterOrEqual => Some(ComparisonOp::GreaterThanOrEqual),
        TokenV::LessOrEqual => Some(ComparisonOp::LessThanOrEqual),
        TokenV::Like => Some(ComparisonOp::Like),
        _ => None,
    }
}

/// The literal value that a token stands for.
pub open spec fn value_token(v: IqlValue, t: TokenV) -> bool {
    match (v, t) {
        (IqlValue::String(s), TokenV::String(x)) => s@ == x,
        (IqlValue::Integer(n), TokenV::Integer(m)) => n == m,
        (IqlValue::UnsignedInteger(n), TokenV::UnsignedInteger(m)) => n == m,
        (IqlValue::Float(s), TokenV::Float(x)) => s@ == x,
        (IqlValue::Boolean(b), TokenV::True) => b,
        (IqlValue::Boolean(b), TokenV::False) => !b,
        (IqlValue::Null, TokenV::Null) => true,
        (IqlValue::Priority(p), _) => priority_of(t) == Some(p),
        (IqlValue::Identifier(s), TokenV::Identifier(x)) => s@ == x,
        _ => false,
    }
}

pub open spec fn is_value_token(t: TokenV) -> bool {
    match t {
        TokenV::String(_) | TokenV::Integer(_) | TokenV::UnsignedInteger(_) | TokenV::Float(_)
        | TokenV::True | TokenV::False | TokenV::Null | TokenV::Identifier(_) => true,
        _ => priority_of(t) is Some,
    }
}

/// The issue id spelled by the tokens at `p`: an identifier, `#`, and a
/// number.
pub open spec fn issue_id_at(t: Seq<TokenV>, p: int) -> Option<Seq<char>> {
    match (tok(t, p), tok(t, p + 1), tok(t, p + 2)) {
        (TokenV::Identifier(x), TokenV::Hash, TokenV::UnsignedInteger(n)) => Some(issue_key(x, n as nat)),
        _ => None,
    }
}

/// The token after the last `key` among the pairs that start at `a`,
/// `a + 2`, … before `b`.
pub open spec fn last_value(t: Seq<TokenV>, a: int, b: int, key: TokenV) -> Option<TokenV>
    decreases b - a,
{
    if b - a < 2 {
        None
    } else if tok(t, b - 2) == key {
        Some(tok(t, b - 1))
    } else {
        last_value(t, a, b - 2, key)
    }
}

pub open spec fn opt_text(v: Option<TokenV>) -> Option<Seq<char>> {
    match v {
        Some(t) => text_of(t),
        None => None,
    }
}

pub open spec fn opt_field_name(v: Option<TokenV>) -> Option<Seq<char>> {
    match v {
        Some(t) => field_name_of(t),
        None => None,
    }
}

pub open spec fn opt_priority(v: Option<TokenV>) -> Option<Priority> {
    match v {
        Some(t) => priority_of(t),
        None => None,
    }
}

pub open spec fn opt_string_view(s: Option<String>) -> Option<Seq<char>> {
    match s {
        Some(x) => Some(x@),
        None => None,
    }
}

pub open spec fn opt_user_view(u: Option<UserId>) -> Option<Seq<char>> {
    match u {
        Some(x) => Some(x.0@),
        None => None,
    }
}

/// The keys of the WITH clause of CREATE ISSUE.
pub open spec fn is_issue_key(t: TokenV) -> bool {
    t == TokenV::Title || t == TokenV::Description || t == TokenV::Priority || t == TokenV::Assignee
}

/// The keys of the WITH clause of CREATE PROJECT.
pub open spec fn is_project_key(t: TokenV) -> bool {
    t == TokenV::Name || t == TokenV::Description || t == TokenV::Owner
}

/// The keys of the WITH clause of CREATE USER.
pub open spec fn is_user_key(t: TokenV) -> bool {
    t == TokenV::Email || t == TokenV::Name
}

/// The tokens `p..q` name a target of kind `k` (user, project, issue,
/// comment) with id `id`; a comment id is a name or a number.
pub open spec fn target_at(t: Seq<TokenV>, p: int, k: u8, id: Seq<char>, q: int) -> bool {
    if k == 0 {
        tok(t, p) == TokenV::User && field_name_of(tok(t, p + 1)) == Some(id) && q == p + 2
    } else if k == 1 {
        tok(t, p) == TokenV::Project && field_name_of(tok(t, p + 1)) == Some(id) && q == p + 2
    } else if k == 2 {
        tok(t, p) == TokenV::Issue && issue_id_at(t, p + 1) == Some(id) && q == p + 4
    } else {
        tok(t, p) == TokenV::Comment && q == p + 2 && (field_name_of(tok(t, p + 1)) == Some(id) || (tok(
            t,
            p + 1,
        ) matches TokenV::UnsignedInteger(n) && id == crate::text::decimal(n as nat)))
    }
}

/// The tokens at `p` name a target: a kind and an id of that kind.
pub open spec fn target_ok(t: Seq<TokenV>, p: int) -> bool {
    ((tok(t, p) == TokenV::User || tok(t, p) == TokenV::Project) && field_name_of(tok(t, p + 1)) is Some)
        || (tok(t, p) == TokenV::Issue && issue_id_at(t, p + 1) is Some) || (tok(t, p)
        == TokenV::Comment && (field_name_of(tok(t, p + 1)) is Some || tok(t, p + 1) is UnsignedInteger))
}

/// The tokens after CLOSE form `ISSUE id [WITH reason]`.
pub open spec fn close_ok(t: Seq<TokenV>, p: int) -> bool {
    tok(t, p) == TokenV::Issue && issue_id_at(t, p + 1) is Some && (tok(t, p + 4) == TokenV::With
        ==> close_reason_of(tok(t, p + 5)) is Some)
}

/// The tokens after REOPEN form `ISSUE id`.
pub open spec fn reopen_ok(t: Seq<TokenV>, p: int) -> bool {
    tok(t, p) == TokenV::Issue && issue_id_at(t, p + 1) is Some
}

/// The tokens after ASSIGN form `ISSUE id TO user`.
pub open spec fn assign_ok(t: Seq<TokenV>, p: int) -> bool {
    tok(t, p) == TokenV::Issue && issue_id_at(t, p + 1) is Some && tok(t, p + 4) == TokenV::To
        && field_name_of(tok(t, p + 5)) is Some
}

/// The tokens after COMMENT form `ON ISSUE id WITH text`.
pub open spec fn comment_ok(t: Seq<TokenV>, p: int) -> bool {
    tok(t, p) == TokenV::On && tok(t, p + 1) == TokenV::Issue && issue_id_at(t, p + 2) is Some && tok(
        t,
        p + 5,
    ) == TokenV::With && text_of(tok(t, p + 6)) is Some
}

/// The target kind and id of an UPDATE or DELETE.
pub open spec fn update_target_parts(e: UpdateTarget) -> (u8, Seq<char>) {
    match e {
        UpdateTarget::User(x) => (0, x.0@),
        UpdateTarget::Project(x) => (1, x.0@),
        UpdateTarget::Issue(x) => (2, x.0@),
        UpdateTarget::Comment(x) => (3, x.0@),
    }
}

pub open spec fn delete_target_parts(e: DeleteTarget) -> (u8, Seq<char>) {
    match e {
        DeleteTarget::User(x) => (0, x.0@),
        DeleteTarget::Project(x) => (1, x.0@),
        DeleteTarget::Issue(x) => (2, x.0@),
        DeleteTarget::Comment(x) => (3, x.0@),
    }
}

/// Where a list of values `v (, v)*` that starts at `p` ends.
pub open spec fn list_end(t: Seq<TokenV>, p: int) -> Option<int>
    decreases t.len() - p,
{
    if p < 0 || p >= t.len() || !is_value_token(tok(t, p)) {
        None
    } else if tok(t, p + 1) == TokenV::Comma {
        list_end(t, p + 2)
    } else {
        Some(p + 1)
    }
}

/// Where a predicate on a field that starts at `p` ends: `f IS [NOT] NULL`,
/// `f IN (v, …)` or `f op v`.
pub open spec fn predicate_end(t: Seq<TokenV>, p: int) -> Option<int> {
    if field_name_of(tok(t, p)) is None {
        None
    } else if tok(t, p + 1) == TokenV::Is {
        if tok(t, p + 2) == TokenV::Not {
            if tok(t, p + 3) == TokenV::Null {
                Some(p + 4)
            } else {
                None
            }
        } else if tok(t, p + 2) == TokenV::Null {
            Some(p + 3)
        } else {
            None
        }
    } else if tok(t, p + 1) == TokenV::In {
        if tok(t, p + 2) == TokenV::LeftParen {
            match list_end(t, p + 3) {
                Some(q) => if tok(t, q) == TokenV::RightParen {
                    Some(q + 1)
                } else {
                    None
                },
                None => None,
            }
        } else {
            None
        }
    } else if comparison_of(tok(t, p + 1)) is Some && is_value_token(tok(t, p + 2)) {
        Some(p + 3)
    } else {
        None
    }
}

/// Where a primary filter that starts at `p` ends.
pub open spec fn prim_end(t: Seq<TokenV>, p: int) -> Option<int>
    decreases t.len() - p, 0nat,
{
    if p < 0 || p > t.len() {
        None
    } else if tok(t, p) == TokenV::Not {
        if p + 1 <= t.len() {
            prim_end(t, p + 1)
        } else {
            None
        }
    } else if tok(t, p) == TokenV::LeftParen {
        if p + 1 <= t.len() {
            match or_end(t, p + 1) {
                Some(q) => if tok(t, q) == TokenV::RightParen {
                    Some(q + 1)
                } else {
                    None
                },
                None => None,
            }
        } else {
            None
        }
    } else {
        predicate_end(t, p)
    }
}

/// Where `(AND primary)*` that starts at `q` ends.
pub open spec fn and_rest(t: Seq<TokenV>, q: int) -> Option<int>
    decreases t.len() - q, 1nat,
{
    if q < 0 || q > t.len() {
        None
    } else if tok(t, q) == TokenV::And {
        if q + 1 <= t.len() {
            match prim_end(t, q + 1) {
                Some(q2) => if q < q2 <= t.len() {
                    and_rest(t, q2)
                } else {
                    None
                },
                None => None,
            }
        } else {
            None
        }
    } else {
        Some(q)
    }
}

/// Where `primary (AND primary)*` that starts at `p` ends.
pub open spec fn and_end(t: Seq<TokenV>, p: int) -> Option<int>
    decreases t.len() - p, 2nat,
{
    if p < 0 || p > t.len() {
        None
    } else {
        match prim_end(t, p) {
            Some(q) => if p < q <= t.len() {
                and_rest(t, q)
            } else {
                None
            },
            None => None,
        }
    }
}

/// Where `(OR and)*` that starts at `q` ends.
pub open spec fn or_rest(t: Seq<TokenV>, q: int) -> Option<int>
    decreases t.len() - q, 3nat,
{
    if q < 0 || q > t.len() {
        None
    } else if tok(t, q) == TokenV::Or {
        if q + 1 <= t.len() {
            match and_end(t, q + 1) {
                Some(q2) => if q < q2 <= t.len() {
                    or_rest(t, q2)
                } else {
                    None
                },
                None => None,
            }
        } else {
            None
        }
    } else {
        Some(q)
    }
}

/// Where a filter `and (OR and)*` that starts at `p` ends, if one does.
pub open spec fn or_end(t: Seq<TokenV>, p: int) -> Option<int>
    decreases t.len() - p, 4nat,
{
    if p < 0 || p > t.len() {
        None
    } else {
        match and_end(t, p) {
            Some(q) => if p < q <= t.len() {
                or_rest(t, q)
            } else {
                None
            },
            None => None,
        }
    }
}

/// Where a list of field names `f (, f)*` that starts at `p` ends.
pub open spec fn names_end(t: Seq<TokenV>, p: int) -> Option<int>
    decreases t.len() - p,
{
    if p < 0 || p >= t.len() || field_name_of(tok(t, p)) is None {
        None
    } else if tok(t, p + 1) == TokenV::Comma {
        names_end(t, p + 2)
    } else {
        Some(p + 1)
    }
}

/// Where the columns of a SELECT end: `*` or field names.
pub open spec fn columns_end(t: Seq<TokenV>, p: int) -> Option<int> {
    if tok(t, p) == TokenV::Star {
        Some(p + 1)
    } else {
        names_end(t, p)
    }
}

/// Where an optional WHERE clause at `w` ends.
pub open spec fn where_end(t: Seq<TokenV>, w: int) -> Option<int> {
    if tok(t, w) == TokenV::Where {
        or_end(t, w + 1)
    } else {
        Some(w)
    }
}

/// Where an optional ORDER BY clause at `o` ends.
pub open spec fn order_end(t: Seq<TokenV>, o: int) -> Option<int> {
    if tok(t, o) == TokenV::Order {
        if tok(t, o + 1) == TokenV::By && field_name_of(tok(t, o + 2)) is Some {
            if tok(t, o + 3) == TokenV::Desc || tok(t, o + 3) == TokenV::Asc {
                Some(o + 4)
            } else {
                Some(o + 3)
            }
        } else {
            None
        }
    } else {
        Some(o)
    }
}

/// Where an optional `kw <number>` clause at `i` ends.
pub open spec fn number_clause_end(t: Seq<TokenV>, i: int, kw: TokenV) -> Option<int> {
    if tok(t, i) == kw {
        if tok(t, i + 1) is UnsignedInteger {
            Some(i + 2)
        } else {
            None
        }
    } else {
        Some(i)
    }
}

/// Where the body of a SELECT that starts at `p` ends.
pub open spec fn select_end(t: Seq<TokenV>, p: int) -> Option<int> {
    match columns_end(t, p) {
        None => None,
        Some(c) => if tok(t, c) == TokenV::From && entity_type_of(tok(t, c + 1)) is Some {
            match where_end(t, c + 2) {
                None => None,
                Some(w) => match order_end(t, w) {
                    None => None,
                    Some(o) => match number_clause_end(t, o, TokenV::Limit) {
                        None => None,
                        Some(l) => number_clause_end(t, l, TokenV::Offset),
                    },
                },
            }
        } else {
            None
        },
    }
}

/// Where the updates `f = v (, f = v)*` that start at `p` end.
pub open spec fn updates_end(t: Seq<TokenV>, p: int) -> Option<int>
    decreases t.len() - p,
{
    if p < 0 || p >= t.len() || field_name_of(tok(t, p)) is None {
        None
    } else if tok(t, p + 1) == TokenV::Equal && is_value_token(tok(t, p + 2)) {
        if tok(t, p + 3) == TokenV::Comma {
            updates_end(t, p + 4)
        } else {
            Some(p + 3)
        }
    } else {
        None
    }
}

/// Where the target of an UPDATE or DELETE at `p` ends.
pub open spec fn target_end(t: Seq<TokenV>, p: int) -> Option<int> {
    if !target_ok(t, p) {
        None
    } else if tok(t, p) == TokenV::Issue {
        Some(p + 4)
    } else {
        Some(p + 2)
    }
}

/// Where the body of an UPDATE that starts at `p` ends.
pub open spec fn update_end(t: Seq<TokenV>, p: int) -> Option<int> {
    match target_end(t, p) {
        Some(m) => if tok(t, m) == TokenV::SetKw {
            updates_end(t, m + 1)
        } else {
            None
        },
        None => None,
    }
}

/// Where the `key value` pairs of CREATE USER from `q` end.
pub open spec fn user_bag_end(t: Seq<TokenV>, q: int) -> Option<int>
    decreases t.len() - q,
{
    if 0 <= q < t.len() && is_user_key(tok(t, q)) {
        if text_of(tok(t, q + 1)) is Some {
            user_bag_end(t, q + 2)
        } else {
            None
        }
    } else {
        Some(q)
    }
}

/// Where the `key value` pairs of CREATE PROJECT from `q` end.
pub open spec fn project_bag_end(t: Seq<TokenV>, q: int) -> Option<int>
    decreases t.len() - q,
{
    if 0 <= q < t.len() && is_project_key(tok(t, q)) {
        if (tok(t, q) == TokenV::Owner && field_name_of(tok(t, q + 1)) is Some) || (tok(t, q)
            != TokenV::Owner && text_of(tok(t, q + 1)) is Some) {
            project_bag_end(t, q + 2)
        } else {
            None
        }
    } else {
        Some(q)
    }
}

/// Where the `key value` pairs of CREATE ISSUE from `q` end.
pub open spec fn issue_bag_end(t: Seq<TokenV>, q: int) -> Option<int>
    decreases t.len() - q,
{
    if 0 <= q < t.len() && is_issue_key(tok(t, q)) {
        if (tok(t, q) == TokenV::Priority && priority_of(tok(t, q + 1)) is Some) || (tok(t, q)
            == TokenV::Assignee && field_name_of(tok(t, q + 1)) is Some) || ((tok(t, q)
            == TokenV::Title || tok(t, q) == TokenV::Description) && text_of(tok(t, q + 1)) is Some) {
            issue_bag_end(t, q + 2)
        } else {
            None
        }
    } else {
        Some(q)
    }
}

/// Where the body of CREATE USER at `p` ends; a WITH needs a pair.
pub open spec fn create_user_end(t: Seq<TokenV>, p: int) -> Option<int> {
    if field_name_of(tok(t, p)) is None {
        None
    } else if tok(t, p + 1) == TokenV::With {
        match user_bag_end(t, p + 2) {
            Some(q) => if q > p + 2 {
                Some(q)
            } else {
                None
            },
            None => None,
        }
    } else {
        Some(p + 1)
    }
}

/// Where the body of CREATE PROJECT at `p` ends; a WITH needs a pair.
pub open spec fn create_project_end(t: Seq<TokenV>, p: int) -> Option<int> {
    if field_name_of(tok(t, p)) is None {
        None
    } else if tok(t, p + 1) == TokenV::With {
        match project_bag_end(t, p + 2) {
            Some(q) => if q > p + 2 {
                Some(q)
            } else {
                None
            },
            None => None,
        }
    } else {
        Some(p + 1)
    }
}

/// Where the body of CREATE ISSUE at `p` ends; TITLE is required.
pub open spec fn create_issue_end(t: Seq<TokenV>, p: int) -> Option<int> {
    if tok(t, p) == TokenV::Of && tok(t, p + 1) == TokenV::Kind && issue_kind_of(tok(t, p + 2)) is Some
        && tok(t, p + 3) == TokenV::In && field_name_of(tok(t, p + 4)) is Some && tok(t, p + 5)
        == TokenV::With {
        match issue_bag_end(t, p + 6) {
            Some(q) => if last_value(t, p + 6, q, TokenV::Title) is Some {
                Some(q)
            } else {
                None
            },
            None => None,
        }
    } else {
        None
    }
}

/// Whether the tokens form a statement; what follows it is not read.
pub open spec fn statement_ok(t: Seq<TokenV>) -> bool {
    match tok(t, 0) {
        TokenV::Create => (tok(t, 1) == TokenV::User && create_user_end(t, 2) is Some) || (tok(t, 1)
            == TokenV::Project && create_project_end(t, 2) is Some) || (tok(t, 1) == TokenV::Issue
            && create_issue_end(t, 2) is Some),
        TokenV::Select => select_end(t, 1) is Some,
        TokenV::Update => update_end(t, 1) is Some,
        TokenV::Delete => target_ok(t, 1),
        TokenV::Assign => assign_ok(t, 1),
        TokenV::Close => close_ok(t, 1),
        TokenV::Reopen => reopen_ok(t, 1),
        TokenV::Comment => comment_ok(t, 1),
        _ => false,
    }
}

/// A literal with strings as character sequences.
pub enum LitV {
    Str(Seq<char>),
    Int(i64),
    UInt(u64),
    Float(Seq<char>),
    Bool(bool),
    Null,
    Prio(Priority),
    Ident(Seq<char>),
}

pub open spec fn lit_view(v: IqlValue) -> LitV {
    match v {
        IqlValue::String(s) => LitV::Str(s@),
        IqlValue::Integer(n) => LitV::Int(n),
        IqlValue::UnsignedInteger(n) => LitV::UInt(n),
        IqlValue::Float(s) => LitV::Float(s@),
        IqlValue::Boolean(b) => LitV::Bool(b),
        IqlValue::Null => LitV::Null,
        IqlValue::Priority(p) => LitV::Prio(p),
        IqlValue::Identifier(s) => LitV::Ident(s@),
    }
}

/// The literal that a value token spells.
pub open spec fn lit_of_tok(t: TokenV) -> LitV {
    match t {
        TokenV::String(s) => LitV::Str(s),
        TokenV::Integer(n) => LitV::Int(n),
        TokenV::UnsignedInteger(n) => LitV::UInt(n),
        TokenV::Float(s) => LitV::Float(s),
        TokenV::True => LitV::Bool(true),
        TokenV::False => LitV::Bool(false),
        TokenV::Identifier(s) => LitV::Ident(s),
        _ => match priority_of(t) {
            Some(p) => LitV::Prio(p),
            None => LitV::Null,
        },
    }
}

/// A filter with strings as character sequences.
pub enum FilterV {
    Cmp(Seq<char>, ComparisonOp, LitV),
    And(Box<FilterV>, Box<FilterV>),
    Or(Box<FilterV>, Box<FilterV>),
    Not(Box<FilterV>),
    In(Seq<char>, Seq<LitV>),
    IsNull(Seq<char>),
    IsNotNull(Seq<char>),
}

pub open spec fn filter_view(f: FilterExpression) -> FilterV
    decreases f,
{
    match f {
        FilterExpression::Comparison { field, op, value } => FilterV::Cmp(field@, op, lit_view(value)),
        FilterExpression::And(a, b) => FilterV::And(Box::new(filter_view(*a)), Box::new(filter_view(*b))),
        FilterExpression::Or(a, b) => FilterV::Or(Box::new(filter_view(*a)), Box::new(filter_view(*b))),
        FilterExpression::Not(a) => FilterV::Not(Box::new(filter_view(*a))),
        FilterExpression::In { field, values } => FilterV::In(field@, values@.map_values(|v: IqlValue| lit_view(v))),
        FilterExpression::IsNull(field) => FilterV::IsNull(field@),
        FilterExpression::IsNotNull(field) => FilterV::IsNotNull(field@),
    }
}

/// The literals of the list that spans `a..b`, one every other token.
pub open spec fn lits_between(t: Seq<TokenV>, a: int, b: int) -> Seq<LitV> {
    Seq::new(((b - a + 1) / 2) as nat, |k: int| lit_of_tok(tok(t, a + 2 * k)))
}

/// The primary filter that starts at `p`, and where it ends.
pub open spec fn prim_parse(t: Seq<TokenV>, p: int) -> Option<(FilterV, int)>
    decreases t.len() - p, 0nat,
{
    if p < 0 || p > t.len() {
        None
    } else if tok(t, p) == TokenV::Not {
        if p + 1 <= t.len() {
            match prim_parse(t, p + 1) {
                Some((f, q)) => Some((FilterV::Not(Box::new(f)), q)),
                None => None,
            }
        } else {
            None
        }
    } else if tok(t, p) == TokenV::LeftParen {
        if p + 1 <= t.len() {
            match or_parse(t, p + 1) {
                Some((f, q)) => if tok(t, q) == TokenV::RightParen {
                    Some((f, q + 1))
                } else {
                    None
                },
                None => None,
            }
        } else {
            None
        }
    } else {
        match (predicate_end(t, p), field_name_of(tok(t, p))) {
            (Some(q), Some(name)) => if tok(t, p + 1) == TokenV::Is {
                if tok(t, p + 2) == TokenV::Not {
                    Some((FilterV::IsNotNull(name), q))
                } else {
                    Some((FilterV::IsNull(name), q))
                }
            } else if tok(t, p + 1) == TokenV::In {
                Some((FilterV::In(name, lits_between(t, p + 3, q - 1)), q))
            } else {
                Some((FilterV::Cmp(name, comparison_of(tok(t, p + 1))->0, lit_of_tok(tok(t, p + 2))), q))
            },
            _ => None,
        }
    }
}

/// `(AND primary)*` from `q`, with `left` built so far.
pub open spec fn and_more(t: Seq<TokenV>, q: int, left: FilterV) -> Option<(FilterV, int)>
    decreases t.len() - q, 1nat,
{
    if q < 0 || q > t.len() {
        None
    } else if tok(t, q) == TokenV::And {
        if q + 1 <= t.len() {
            match prim_parse(t, q + 1) {
                Some((r, q2)) => if q < q2 <= t.len() {
                    and_more(t, q2, FilterV::And(Box::new(left), Box::new(r)))
                } else {
                    None
                },
                None => None,
            }
        } else {
            None
        }
    } else {
        Some((left, q))
    }
}

/// `primary (AND primary)*` from `p`, grouped from the left.
pub open spec fn and_parse(t: Seq<TokenV>, p: int) -> Option<(FilterV, int)>
    decreases t.len() - p, 2nat,
{
    if p < 0 || p > t.len() {
        None
    } else {
        match prim_parse(t, p) {
            Some((f, q)) => if p < q <= t.len() {
                and_more(t, q, f)
            } else {
                None
            },
            None => None,
        }
    }
}

/// `(OR and)*` from `q`, with `left` built so far.
pub open spec fn or_more(t: Seq<TokenV>, q: int, left: FilterV) -> Option<(FilterV, int)>
    decreases t.len() - q, 3nat,
{
    if q < 0 || q > t.len() {
        None
    } else if tok(t, q) == TokenV::Or {
        if q + 1 <= t.len() {
            match and_parse(t, q + 1) {
                Some((r, q2)) => if q < q2 <= t.len() {
                    or_more(t, q2, FilterV::Or(Box::new(left), Box::new(r)))
                } else {
                    None
                },
                None => None,
            }
        } else {
            None
        }
    } else {
        Some((left, q))
    }
}

/// The filter `and (OR and)*` that starts at `p`, grouped from the left
/// (AND binds tighter than OR), and where it ends.
pub open spec fn or_parse(t: Seq<TokenV>, p: int) -> Option<(FilterV, int)>
    decreases t.len() - p, 4nat,
{
    if p < 0 || p > t.len() {
        None
    } else {
        match and_parse(t, p) {
            Some((f, q)) => if p < q <= t.len() {
                or_more(t, q, f)
            } else {
                None
            },
            None => None,
        }
    }
}

pub proof fn lemma_lit_of_value(v: IqlValue, t: TokenV)
    requires
        value_token(v, t),
    ensures
        lit_view(v) == lit_of_tok(t),
{
}

/// The value of a `kw <number>` clause at `i`, if there is one.
pub open spec fn number_at(t: Seq<TokenV>, i: int, kw: TokenV) -> Option<u64> {
    if tok(t, i) == kw {
        match tok(t, i + 1) {
            TokenV::UnsignedInteger(n) => Some(n),
            _ => None,
        }
    } else {
        None
    }
}

/// The columns `c` are the tokens `p..q`: `*`, or the field names
/// separated by commas.
pub open spec fn columns_at(t: Seq<TokenV>, p: int, c: Columns, q: int) -> bool {
    match c {
        Columns::All => tok(t, p) == TokenV::Star && q == p + 1,
        Columns::Named(cs) => tok(t, p) != TokenV::Star && cs@.len() >= 1 && q == p + 2 * cs@.len()
            - 1 && tok(t, q) != TokenV::Comma && forall|k: int|
            0 <= k < cs@.len() ==> field_name_of(#[trigger] tok(t, p + 2 * k)) == Some(cs@[k]@) && (k + 1
                < cs@.len() ==> tok(t, p + 2 * k + 1) == TokenV::Comma),
    }
}

/// The updates `us` are the tokens `p..q`: `f = v` pairs separated by
/// commas, in order.
pub open spec fn updates_at(t: Seq<TokenV>, p: int, us: Seq<FieldUpdate>, q: int) -> bool {
    us.len() >= 1 && q == p + 4 * us.len() - 1 && tok(t, q) != TokenV::Comma && forall|k: int|
        0 <= k < us.len() ==> field_name_of(#[trigger] tok(t, p + 4 * k)) == Some(us[k].field@) && tok(
            t,
            p + 4 * k + 1,
        ) == TokenV::Equal && value_token(us[k].value, tok(t, p + 4 * k + 2)) && (k + 1 < us.len()
            ==> tok(t, p + 4 * k + 3) == TokenV::Comma)
}

/// The values `vs` are the tokens `p..q`, separated by commas.
pub open spec fn values_at(t: Seq<TokenV>, p: int, vs: Seq<IqlValue>, q: int) -> bool {
    vs.len() >= 1 && q == p + 2 * vs.len() - 1 && tok(t, q) != TokenV::Comma && forall|k: int|
        0 <= k < vs.len() ==> value_token(vs[k], #[trigger] tok(t, p + 2 * k)) && (k + 1 < vs.len()
            ==> tok(t, p + 2 * k + 1) == TokenV::Comma)
}

/// The tokens before the WITH of CREATE ISSUE: `OF KIND kind IN project`.
pub open spec fn issue_head_ok(t: Seq<TokenV>, p: int) -> bool {
    tok(t, p) == TokenV::Of && tok(t, p + 1) == TokenV::Kind && issue_kind_of(tok(t, p + 2)) is Some
        && tok(t, p + 3) == TokenV::In && field_name_of(tok(t, p + 4)) is Some
}

/// CREATE USER: the body at `p..q` gives these fields.
pub open spec fn user_parsed(
    t: Seq<TokenV>,
    p: int,
    username: String,
    email: Option<String>,
    name: Option<String>,
    q: int,
) -> bool {
    field_name_of(tok(t, p)) == Some(username@) && if tok(t, p + 1) == TokenV::With {
        q >= p + 4 && (q - (p + 2)) % 2 == 0 && !is_user_key(tok(t, q)) && opt_text(
            last_value(t, p + 2, q, TokenV::Email),
        ) == opt_string_view(email) && opt_text(last_value(t, p + 2, q, TokenV::Name))
            == opt_string_view(name)
    } else {
        q == p + 1 && email is None && name is None
    }
}

/// CREATE PROJECT: the body at `p..q` gives these fields.
pub open spec fn project_parsed(
    t: Seq<TokenV>,
    p: int,
    project_id: ProjectId,
    name: Option<String>,
    description: Option<String>,
    owner: Option<UserId>,
    q: int,
) -> bool {
    field_name_of(tok(t, p)) == Some(project_id.0@) && if tok(t, p + 1) == TokenV::With {
        q >= p + 4 && (q - (p + 2)) % 2 == 0 && !is_project_key(tok(t, q)) && opt_text(
            last_value(t, p + 2, q, TokenV::Name),
        ) == opt_string_view(name) && opt_text(last_value(t, p + 2, q, TokenV::Description))
            == opt_string_view(description) && opt_field_name(last_value(t, p + 2, q, TokenV::Owner))
            == opt_user_view(owner)
    } else {
        q == p + 1 && name is None && description is None && owner is None
    }
}

/// CREATE ISSUE: the body at `p..q` gives these fields.
pub open spec fn issue_parsed(
    t: Seq<TokenV>,
    p: int,
    project: ProjectId,
    kind: IssueKind,
    title: String,
    description: Option<String>,
    priority: Option<Priority>,
    assignee: Option<UserId>,
    q: int,
) -> bool {
    tok(t, p) == TokenV::Of && tok(t, p + 1) == TokenV::Kind && issue_kind_of(tok(t, p + 2)) == Some(
        kind,
    ) && tok(t, p + 3) == TokenV::In && field_name_of(tok(t, p + 4)) == Some(project.0@) && tok(
        t,
        p + 5,
    ) == TokenV::With && (q - (p + 6)) % 2 == 0 && !is_issue_key(tok(t, q)) && opt_text(
        last_value(t, p + 6, q, TokenV::Title),
    ) == Some(title@) && opt_text(last_value(t, p + 6, q, TokenV::Description)) == opt_string_view(
        description,
    ) && opt_priority(last_value(t, p + 6, q, TokenV::Priority)) == priority && opt_field_name(
        last_value(t, p + 6, q, TokenV::Assignee),
    ) == opt_user_view(assignee)
}

/// SELECT: the body at `p..q` gives these parts; clauses follow in the
/// order WHERE, ORDER BY, LIMIT, OFFSET.
pub open spec fn select_parsed(t: Seq<TokenV>, p: int, s: SelectStatement, q: int) -> bool {
    let c = columns_end(t, p)->0;
    let w = where_end(t, c + 2)->0;
    let o = order_end(t, w)->0;
    let l = number_clause_end(t, o, TokenV::Limit)->0;
    &&& select_end(t, p) == Some(q)
    &&& columns_at(t, p, s.columns, c)
    &&& tok(t, c) == TokenV::From
    &&& entity_type_of(tok(t, c + 1)) == Some(s.from)
    &&& (s.filter is Some <==> tok(t, c + 2) == TokenV::Where)
    &&& (s.filter matches Some(f) ==> or_parse(t, c + 3) == Some((filter_view(f), w)))
    &&& (s.order_by is Some <==> tok(t, w) == TokenV::Order)
    &&& (s.order_by matches Some(ob) ==> field_name_of(tok(t, w + 2)) == Some(ob.field@) && (ob.direction
        == OrderDirection::Desc <==> tok(t, w + 3) == TokenV::Desc))
    &&& s.limit == number_at(t, o, TokenV::Limit)
    &&& s.offset == number_at(t, l, TokenV::Offset)
}

/// UPDATE: the body at `p..q` gives this statement.
pub open spec fn update_parsed(t: Seq<TokenV>, p: int, u: UpdateStatement, q: int) -> bool {
    let m = target_end(t, p)->0;
    &&& target_at(t, p, update_target_parts(u.entity).0, update_target_parts(u.entity).1, m)
    &&& tok(t, m) == TokenV::SetKw
    &&& updates_at(t, m + 1, u.updates@, q)
}

/// The statement `st` is what the tokens `t` spell (up to where it ends).
pub open spec fn statement_parsed(t: Seq<TokenV>, st: Statement) -> bool {
    exists|q: int|
        #![trigger statement_parsed_to(t, st, q)]
        statement_parsed_to(t, st, q)
}

/// The statement `st` is what the tokens `t[0..q]` spell.
pub open spec fn statement_parsed_to(t: Seq<TokenV>, st: Statement, q: int) -> bool {
    match st {
        Statement::Create(CreateStatement::User { username, email, name }) => tok(t, 0)
            == TokenV::Create && tok(t, 1) == TokenV::User && user_parsed(t, 2, username, email, name, q),
        Statement::Create(CreateStatement::Project { project_id, name, description, owner }) => tok(
            t,
            0,
        ) == TokenV::Create && tok(t, 1) == TokenV::Project && project_parsed(
            t,
            2,
            project_id,
            name,
            description,
            owner,
            q,
        ),
        Statement::Create(
            CreateStatement::Issue { project, kind, title, description, priority, assignee },
        ) => tok(t, 0) == TokenV::Create && tok(t, 1) == TokenV::Issue && issue_parsed(
            t,
            2,
            project,
            kind,
            title,
            description,
            priority,
            assignee,
            q,
        ),
        Statement::Select(s) => tok(t, 0) == TokenV::Select && select_parsed(t, 1, s, q),
        Statement::Update(u) => tok(t, 0) == TokenV::Update && update_parsed(t, 1, u, q),
        Statement::Delete(d) => tok(t, 0) == TokenV::Delete && target_at(
            t,
            1,
            delete_target_parts(d.entity).0,
            delete_target_parts(d.entity).1,
            q,
        ),
        Statement::Assign(a) => tok(t, 0) == TokenV::Assign && q == 7 && tok(t, 1) == TokenV::Issue
            && issue_id_at(t, 2) == Some(a.issue_id.0@) && tok(t, 5) == TokenV::To && field_name_of(
            tok(t, 6),
        ) == Some(a.assignee.0@),
        Statement::Close(c) => tok(t, 0) == TokenV::Close && tok(t, 1) == TokenV::Issue && issue_id_at(
            t,
            2,
        ) == Some(c.issue_id.0@) && match c.reason {
            Some(x) => tok(t, 5) == TokenV::With && close_reason_of(tok(t, 6)) == Some(x) && q == 7,
            None => tok(t, 5) != TokenV::With && q == 5,
        },
        Statement::Reopen(c) => tok(t, 0) == TokenV::Reopen && q == 5 && tok(t, 1) == TokenV::Issue
            && issue_id_at(t, 2) == Some(c.issue_id.0@),
        Statement::Comment(c) => tok(t, 0) == TokenV::Comment && q == 8 && tok(t, 1) == TokenV::On
            && tok(t, 2) == TokenV::Issue && issue_id_at(t, 3) == Some(c.issue_id.0@) && tok(t, 6)
            == TokenV::With && text_of(tok(t, 7)) == Some(c.content@),
    }
}

/// The text of a string or identifier token.
pub open spec fn text_of(t: TokenV) -> Option<Seq<char>> {
    match t {
        TokenV::String(s) => Some(s),
        TokenV::Identifier(s) => Some(s),
        _ => None,
    }
}

/// Tokens read by the parser, closed by `Eof`.
pub struct Tokens {
    pub items: Vec<Token>,
}

impl View for Tokens {
    type V = Seq<TokenV>;

    open spec fn view(&self) -> Seq<TokenV> {
        view_tokens(self.items@)
    }
}

impl Tokens {
    /// Few enough tokens that positions past the end cannot overflow.
    pub open spec fn bounded(&self) -> bool {
        self@.len() + 8 <= usize::MAX
    }

    fn at(&self, p: usize) -> (r: &Token)
        ensures
            r@ == tok(self@, p as int),
    {
        if p < self.items.len() {
            &self.items[p]
        } else {
            &EOF
        }
    }

    fn is(&self, p: usize, k: &Token) -> (r: bool)
        ensures
            r == (kind_of(tok(self@, p as int)) == kind_of(k@)),
    {
        kind_index(self.at(p)) == kind_index(k)
    }

    fn unexpected<T>(&self, p: usize, expected: &str) -> (r: ParseResult<T>)
        ensures
            r matches Err(ParseError::UnexpectedToken { .. }),
    {
        Err(
            ParseError::UnexpectedToken {
                expected: copy_str(expected),
                found: describe(self.at(p)),
                position: position_of_token(p),
            },
        )
    }

    /// Consumes the token `k` (payload aside) at `p`.
    fn expect(&self, p: usize, k: &Token, name: &str) -> (r: ParseResult<usize>)
        requires
            kind_of(k@) != kind_of(TokenV::Eof),
            p <= self@.len(),
            self.bounded(),
        ensures
            r matches Ok(q) ==> q == p + 1 && q <= self@.len() && kind_of(tok(self@, p as int)) == kind_of(k@),
            r is Err ==> kind_of(tok(self@, p as int)) != kind_of(k@),
            r is Err ==> (r matches Err(ParseError::UnexpectedToken { .. })),
    {
        if self.is(p, k) {
            Ok(p + 1)
        } else {
            self.unexpected(p, name)
        }
    }

    /// An identifier, or a keyword that may name a field (turned to lower
    /// case).
    pub fn parse_identifier(&self, p: usize, what: &str) -> (r: ParseResult<(String, usize)>)
        requires
            p <= self@.len(),
            self.bounded(),
        ensures
            r matches Ok((s, q)) ==> q == p + 1 && q <= self@.len() && field_name_of(tok(self@, p as int)) == Some(s@),
            r is Err ==> field_name_of(tok(self@, p as int)) is None,
            r is Err ==> (r matches Err(ParseError::UnexpectedToken { .. })),
    {
        match self.at(p).to_field_name() {
            Some(s) => Ok((s, p + 1)),
            None => self.unexpected(p, what),
        }
    }

    /// A string literal, or a bare identifier taken as text.
    pub fn parse_string_value(&self, p: usize, what: &str) -> (r: ParseResult<(String, usize)>)
        requires
            p <= self@.len(),
            self.bounded(),
        ensures
            r matches Ok((s, q)) ==> q == p + 1 && q <= self@.len() && text_of(tok(self@, p as int)) == Some(s@),
            r is Err ==> text_of(tok(self@, p as int)) is None,
            r is Err ==> (r matches Err(ParseError::UnexpectedToken { .. })),
    {
        match self.at(p) {
            Token::String(s) => Ok((s.clone(), p + 1)),
            Token::Identifier(s) => Ok((s.clone(), p + 1)),
            _ => self.unexpected(p, what),
        }
    }

    /// An unsigned number.
    pub fn parse_number(&self, p: usize) -> (r: ParseResult<(u64, usize)>)
        requires
            p <= self@.len(),
            self.bounded(),
        ensures
            r matches Ok((n, q)) ==> q == p + 1 && q <= self@.len() && tok(self@, p as int) == TokenV::UnsignedInteger(n),
            r is Err ==> !(tok(self@, p as int) is UnsignedInteger),
    {
        match self.at(p) {
            Token::UnsignedInteger(n) => Ok((*n, p + 1)),
            _ => self.unexpected(p, "number"),
        }
    }

    /// An issue id `<project>#<number>`, as one string.
    pub fn parse_issue_id(&self, p: usize) -> (r: ParseResult<(IssueId, usize)>)
        requires
            p <= self@.len(),
            self.bounded(),
        ensures
            r matches Ok((id, q)) ==> q == p + 3 && q <= self@.len() && issue_id_at(self@, p as int) == Some(id.0@),
            r is Err ==> issue_id_at(self@, p as int) is None,
            r matches Err(ParseError::InvalidIssueId { .. }) ==> tok(self@, p as int) is Identifier
                && tok(self@, p + 1) != TokenV::Hash,
            tok(self@, p as int) matches TokenV::Identifier(x) ==> (tok(self@, p + 1) != TokenV::Hash
                ==> (r matches Err(ParseError::InvalidIssueId { value, .. }) && value@ == x)),
    {
        match self.at(p) {
            Token::Identifier(project) => {
                if self.is(p + 1, &Token::Hash) {
                    match self.at(p + 2) {
                        Token::UnsignedInteger(n) => {
                            let mut v = chars_of(project.as_str());
                            v.push('#');
                            push_decimal(&mut v, *n);
                            Ok((IssueId(string_from_chars(v.as_slice())), p + 3))
                        },
                        _ => self.unexpected(p + 2, "issue number"),
                    }
                } else {
                    Err(
                        ParseError::InvalidIssueId {
                            value: project.clone(),
                            position: position_of_token(p + 1),
                        },
                    )
                }
            },
            _ => self.unexpected(p, "issue ID (project#number)"),
        }
    }

    pub fn parse_priority(&self, p: usize) -> (r: ParseResult<(Priority, usize)>)
        requires
            p <= self@.len(),
            self.bounded(),
        ensures
            r matches Ok((x, q)) ==> q == p + 1 && q <= self@.len() && priority_of(tok(self@, p as int)) == Some(x),
            r matches Err(e) ==> priority_of(tok(self@, p as int)) is None && e is InvalidPriority,
    {
        match self.at(p) {
            Token::Critical => Ok((Priority::Critical, p + 1)),
            Token::High => Ok((Priority::High, p + 1)),
            Token::Medium => Ok((Priority::Medium, p + 1)),
            Token::Low => Ok((Priority::Low, p + 1)),
            t => Err(ParseError::InvalidPriority { value: describe(t), position: position_of_token(p) }),
        }
    }

    pub fn parse_close_reason(&self, p: usize) -> (r: ParseResult<(CloseReason, usize)>)
        requires
            p <= self@.len(),
            self.bounded(),
        ensures
            r matches Ok((x, q)) ==> q == p + 1 && q <= self@.len() && close_reason_of(tok(self@, p as int)) == Some(x),
            r matches Err(e) ==> close_reason_of(tok(self@, p as int)) is None && e is InvalidCloseReason,
    {
        match self.at(p) {
            Token::Done => Ok((CloseReason::Done, p + 1)),
            Token::Duplicate => Ok((CloseReason::Duplicate, p + 1)),
            Token::WontFix => Ok((CloseReason::WontFix, p + 1)),
            t => Err(ParseError::InvalidCloseReason { value: describe(t), position: position_of_token(p) }),
        }
    }

    pub fn parse_issue_kind(&self, p: usize) -> (r: ParseResult<(IssueKind, usize)>)
        requires
            p <= self@.len(),
            self.bounded(),
        ensures
            r matches Ok((x, q)) ==> q == p + 1 && q <= self@.len() && issue_kind_of(tok(self@, p as int)) == Some(x),
            r matches Err(e) ==> issue_kind_of(tok(self@, p as int)) is None && e is InvalidIssueKind,
    {
        match self.at(p) {
            Token::Epic => Ok((IssueKind::Epic, p + 1)),
            Token::Improvement => Ok((IssueKind::Improvement, p + 1)),
            Token::Bug => Ok((IssueKind::Bug, p + 1)),
            Token::Task => Ok((IssueKind::Task, p + 1)),
            t => Err(ParseError::InvalidIssueKind { value: describe(t), position: position_of_token(p) }),
        }
    }

    pub fn parse_entity_type(&self, p: usize) -> (r: ParseResult<(EntityType, usize)>)
        requires
            p <= self@.len(),
            self.bounded(),
        ensures
            r matches Ok((x, q)) ==> q == p + 1 && q <= self@.len() && entity_type_of(tok(self@, p as int)) == Some(x),
            r matches Err(e) ==> entity_type_of(tok(self@, p as int)) is None && e is InvalidEntityType,
    {
        match self.at(p) {
            Token::Users => Ok((EntityType::Users, p + 1)),
            Token::Projects => Ok((EntityType::Projects, p + 1)),
            Token::Issues => Ok((EntityType::Issues, p + 1)),
            Token::Comments => Ok((EntityType::Comments, p + 1)),
            t => Err(ParseError::InvalidEntityType { value: describe(t), position: position_of_token(p) }),
        }
    }

    pub fn parse_comparison_op(&self, p: usize) -> (r: ParseResult<(ComparisonOp, usize)>)
        requires
            p <= self@.len(),
            self.bounded(),
        ensures
            r matches Ok((x, q)) ==> q == p + 1 && q <= self@.len() && comparison_of(tok(self@, p as int)) == Some(x),
            r is Err ==> comparison_of(tok(self@, p as int)) is None,
    {
        match self.at(p) {
            Token::Equal => Ok((ComparisonOp::Equal, p + 1)),
            Token::NotEqual => Ok((ComparisonOp::NotEqual, p + 1)),
            Token::GreaterThan => Ok((ComparisonOp::GreaterThan, p + 1)),
            Token::LessThan => Ok((ComparisonOp::LessThan, p + 1)),
            Token::GreaterOrEqual => Ok((ComparisonOp::GreaterThanOrEqual, p + 1)),
            Token::LessOrEqual => Ok((ComparisonOp::LessThanOrEqual, p + 1)),
            Token::Like => Ok((ComparisonOp::Like, p + 1)),
            _ => self.unexpected(p, "comparison operator"),
        }
    }

    /// A literal value.
    pub fn parse_value(&self, p: usize) -> (r: ParseResult<(IqlValue, usize)>)
        requires
            p <= self@.len(),
            self.bounded(),
        ensures
            r matches Ok((v, q)) ==> q == p + 1 && q <= self@.len() && value_token(v, tok(self@, p as int)),
            r is Err ==> !is_value_token(tok(self@, p as int)),
    {
        match self.at(p) {
            Token::String(s) => Ok((IqlValue::String(s.clone()), p + 1)),
            Token::Integer(n) => Ok((IqlValue::Integer(*n), p + 1)),
            Token::UnsignedInteger(n) => Ok((IqlValue::UnsignedInteger(*n), p + 1)),
            Token::Float(s) => Ok((IqlValue::Float(s.clone()), p + 1)),
            Token::True => Ok((IqlValue::Boolean(true), p + 1)),
            Token::False => Ok((IqlValue::Boolean(false), p + 1)),
            Token::Null => Ok((IqlValue::Null, p + 1)),
            Token::Critical => Ok((IqlValue::Priority(Priority::Critical), p + 1)),
            Token::High => Ok((IqlValue::Priority(Priority::High), p + 1)),
            Token::Medium => Ok((IqlValue::Priority(Priority::Medium), p + 1)),
            Token::Low => Ok((IqlValue::Priority(Priority::Low), p + 1)),
            Token::Identifier(s) => Ok((IqlValue::Identifier(s.clone()), p + 1)),
            _ => self.unexpected(p, "literal"),
        }
    }
}

impl Tokens {
    /// A primary filter: `NOT` primary, a parenthesised filter, or a
    /// predicate on a field.
    pub fn parse_primary_filter(&self, p: usize) -> (r: ParseResult<(FilterExpression, usize)>)
        requires
            p <= self@.len(),
            self.bounded(),
        ensures
            r matches Ok((f, q)) ==> p < q <= self@.len() && prim_end(self@, p as int) == Some(q as int)
                && prim_parse(self@, p as int) == Some(
                (filter_view(f), q as int),
            ),
            r is Err ==> prim_parse(self@, p as int) is None,
            r is Err ==> prim_end(self@, p as int) is None,
        decreases self@.len() - p, 0nat,
    {
        if self.is(p, &Token::Not) {
            let (e, q) = match self.parse_primary_filter(p + 1) {
                Ok(x) => x,
                Err(e) => {
                    return Err(e);
                },
            };
            return Ok((FilterExpression::Not(Box::new(e)), q));
        }
        if self.is(p, &Token::LeftParen) {
            let (e, q) = match self.parse_or_filter(p + 1) {
                Ok(x) => x,
                Err(e) => {
                    return Err(e);
                },
            };
            let q = match self.expect(q, &Token::RightParen, "')'") {
                Ok(q) => q,
                Err(e) => {
                    return Err(e);
                },
            };
            return Ok((e, q));
        }
        let (field, q) = match self.parse_identifier(p, "field name") {
            Ok(x) => x,
            Err(e) => {
                return Err(e);
            },
        };
        if self.is(q, &Token::Is) {
            if self.is(q + 1, &Token::Not) {
                let q = match self.expect(q + 2, &Token::Null, "NULL") {
                    Ok(q) => q,
                    Err(e) => {
                        return Err(e);
                    },
                };
                return Ok((FilterExpression::IsNotNull(field), q));
            } else if self.is(q + 1, &Token::Null) {
                return Ok((FilterExpression::IsNull(field), q + 2));
            } else {
                return self.unexpected(q + 1, "NULL or NOT NULL");
            }
        }
        if self.is(q, &Token::In) {
            let q = match self.expect(q + 1, &Token::LeftParen, "'('") {
                Ok(q) => q,
                Err(e) => {
                    return Err(e);
                },
            };
            let vstart = q;
            let (values, q) = match self.parse_value_list(q) {
                Ok(x) => x,
                Err(e) => {
                    return Err(e);
                },
            };
            let vend = q;
            let q = match self.expect(q, &Token::RightParen, "')'") {
                Ok(q) => q,
                Err(e) => {
                    return Err(e);
                },
            };
            proof {
                let vs = values@.map_values(|v: IqlValue| lit_view(v));
                let ls = lits_between(self@, vstart as int, vend as int);
                assert(vs.len() == ls.len());
                assert forall|k: int| 0 <= k < vs.len() implies vs[k] == ls[k] by {
                    assert(value_token(values@[k], tok(self@, vstart + 2 * k)));
                    lemma_lit_of_value(values@[k], tok(self@, vstart + 2 * k));
                }
                assert(vs =~= ls);
            }
            return Ok((FilterExpression::In { field, values }, q));
        }
        let (op, q) = match self.parse_comparison_op(q) {
            Ok(x) => x,
            Err(e) => {
                return Err(e);
            },
        };
        let (value, q) = match self.parse_value(q) {
            Ok(x) => x,
            Err(e) => {
                return Err(e);
            },
        };
        Ok((FilterExpression::Comparison { field, op, value }, q))
    }

    /// `primary (AND primary)*`, grouped from the left.
    pub fn parse_and_filter(&self, p: usize) -> (r: ParseResult<(FilterExpression, usize)>)
        requires
            p <= self@.len(),
            self.bounded(),
        ensures
            r matches Ok((f, q)) ==> p < q <= self@.len() && and_end(self@, p as int) == Some(q as int)
                && and_parse(self@, p as int) == Some((filter_view(f), q as int)),
            r is Err ==> and_parse(self@, p as int) is None,
            r is Err ==> and_end(self@, p as int) is None,
        decreases self@.len() - p, 1nat,
    {
        let (mut left, mut q) = match self.parse_primary_filter(p) {
            Ok(x) => x,
            Err(e) => {
                return Err(e);
            },
        };
        while self.is(q, &Token::And)
            invariant
                p < q <= self@.len(),
                self.bounded(),
                and_end(self@, p as int) == and_rest(self@, q as int),
                and_parse(self@, p as int) == and_more(self@, q as int, filter_view(left)),
            decreases self@.len() - q,
        {
            let (right, q2) = match self.parse_primary_filter(q + 1) {
                Ok(x) => x,
                Err(e) => {
                    return Err(e);
                },
            };
            left = FilterExpression::And(Box::new(left), Box::new(right));
            q = q2;
        }
        Ok((left, q))
    }

    /// `and (OR and)*`, grouped from the left: OR binds less tightly than AND.
    pub fn parse_or_filter(&self, p: usize) -> (r: ParseResult<(FilterExpression, usize)>)
        requires
            p <= self@.len(),
            self.bounded(),
        ensures
            r matches Ok((f, q)) ==> p < q <= self@.len() && or_end(self@, p as int) == Some(q as int)
                && or_parse(self@, p as int) == Some((filter_view(f), q as int)),
            r is Err ==> or_parse(self@, p as int) is None,
            r is Err ==> or_end(self@, p as int) is None,
        decreases self@.len() - p, 2nat,
    {
        let (mut left, mut q) = match self.parse_and_filter(p) {
            Ok(x) => x,
            Err(e) => {
                return Err(e);
            },
        };
        while self.is(q, &Token::Or)
            invariant
                p < q <= self@.len(),
                self.bounded(),
                or_end(self@, p as int) == or_rest(self@, q as int),
                or_parse(self@, p as int) == or_more(self@, q as int, filter_view(left)),
            decreases self@.len() - q,
        {
            let (right, q2) = match self.parse_and_filter(q + 1) {
                Ok(x) => x,
                Err(e) => {
                    return Err(e);
                },
            };
            left = FilterExpression::Or(Box::new(left), Box::new(right));
            q = q2;
        }
        Ok((left, q))
    }

    /// `value (, value)*`.
    pub fn parse_value_list(&self, p: usize) -> (r: ParseResult<(Vec<IqlValue>, usize)>)
        requires
            p <= self@.len(),
            self.bounded(),
        ensures
            r matches Ok((vs, q)) ==> p < q <= self@.len() && vs@.len() >= 1 && list_end(self@, p as int)
                == Some(q as int) && values_at(self@, p as int, vs@, q as int),
            r is Err ==> list_end(self@, p as int) is None,
    {
        let mut values: Vec<IqlValue> = Vec::new();
        let (v, mut q) = match self.parse_value(p) {
            Ok(x) => x,
            Err(e) => {
                return Err(e);
            },
        };
        values.push(v);
        while self.is(q, &Token::Comma)
            invariant
                p < q <= self@.len(),
                self.bounded(),
                values@.len() >= 1,
                list_end(self@, p as int) == list_end(self@, (q - 1) as int),
                is_value_token(tok(self@, q - 1)),
                q == p + 2 * values@.len() - 1,
                forall|k: int|
                    0 <= k < values@.len() ==> value_token(values@[k], #[trigger] tok(self@, p + 2 * k))
                        && (k + 1 < values@.len() ==> tok(self@, p + 2 * k + 1) == TokenV::Comma),
            decreases self@.len() - q,
        {
            assert(list_end(self@, q - 1) == list_end(self@, q + 1));
            let (v, q2) = match self.parse_value(q + 1) {
                Ok(x) => x,
                Err(e) => {
                    return Err(e);
                },
            };
            values.push(v);
            q = q2;
        }
        Ok((values, q))
    }

    /// `*`, or field names separated by commas.
    pub fn parse_columns(&self, p: usize) -> (r: ParseResult<(Columns, usize)>)
        requires
            p <= self@.len(),
            self.bounded(),
        ensures
            r matches Ok((c, q)) ==> p < q <= self@.len() && (c is All <==> tok(self@, p as int)
                == TokenV::Star) && columns_end(self@, p as int) == Some(q as int) && columns_at(
                self@,
                p as int,
                c,
                q as int,
            ),
            r is Err ==> columns_end(self@, p as int) is None,
    {
        if self.is(p, &Token::Star) {
            return Ok((Columns::All, p + 1));
        }
        let mut cols: Vec<String> = Vec::new();
        let mut q = p;
        loop
            invariant
                p <= q <= self@.len(),
                self.bounded(),
                tok(self@, p as int) != TokenV::Star,
                q > p ==> kind_of(tok(self@, q as int)) == kind_of(TokenV::Comma),
                q > p ==> names_end(self@, p as int) == names_end(self@, q + 1),
                q == p ==> cols@.len() == 0,
                q > p ==> q == p + 2 * cols@.len() - 1 && cols@.len() >= 1,
                forall|k: int|
                    0 <= k < cols@.len() ==> field_name_of(#[trigger] tok(self@, p + 2 * k)) == Some(
                        cols@[k]@,
                    ) && (k + 1 < cols@.len() ==> tok(self@, p + 2 * k + 1) == TokenV::Comma),
            decreases self@.len() - q,
        {
            let start = if q == p { q } else { q + 1 };
            assert(names_end(self@, p as int) == names_end(self@, start as int));
            let (c, q2) = match self.parse_identifier(start, "column") {
                Ok(x) => x,
                Err(e) => {
                    return Err(e);
                },
            };
            cols.push(c);
            assert(names_end(self@, start as int) == if tok(self@, start + 1) == TokenV::Comma {
                names_end(self@, start + 2)
            } else {
                Some(start + 1)
            });
            q = q2;
            if !self.is(q, &Token::Comma) {
                return Ok((Columns::Named(cols), q));
            }
        }
    }

    /// `field = value (, field = value)*`.
    pub fn parse_field_updates(&self, p: usize) -> (r: ParseResult<(Vec<FieldUpdate>, usize)>)
        requires
            p <= self@.len(),
            self.bounded(),
        ensures
            r matches Ok((us, q)) ==> p < q <= self@.len() && us@.len() >= 1 && updates_end(
                self@,
                p as int,
            ) == Some(q as int) && updates_at(self@, p as int, us@, q as int),
            r is Err ==> updates_end(self@, p as int) is None,
    {
        let mut updates: Vec<FieldUpdate> = Vec::new();
        let mut q = p;
        loop
            invariant
                p <= q <= self@.len(),
                self.bounded(),
                q == p ==> updates@.len() == 0,
                q > p ==> updates@.len() >= 1 && kind_of(tok(self@, q as int)) == kind_of(TokenV::Comma),
                q > p ==> updates_end(self@, p as int) == updates_end(self@, q + 1),
                q > p ==> q == p + 4 * updates@.len() - 1,
                forall|k: int|
                    0 <= k < updates@.len() ==> field_name_of(#[trigger] tok(self@, p + 4 * k)) == Some(
                        updates@[k].field@,
                    ) && tok(self@, p + 4 * k + 1) == TokenV::Equal && value_token(
                        updates@[k].value,
                        tok(self@, p + 4 * k + 2),
                    ) && (k + 1 < updates@.len() ==> tok(self@, p + 4 * k + 3) == TokenV::Comma),
            decreases self@.len() - q,
        {
            let start = if q == p { q } else { q + 1 };
            assert(updates_end(self@, p as int) == updates_end(self@, start as int));
            let (field, q1) = match self.parse_identifier(start, "field name") {
                Ok(x) => x,
                Err(e) => {
                    return Err(e);
                },
            };
            let q2 = match self.expect(q1, &Token::Equal, "'='") {
                Ok(q) => q,
                Err(e) => {
                    return Err(e);
                },
            };
            let (value, q3) = match self.parse_value(q2) {
                Ok(x) => x,
                Err(e) => {
                    return Err(e);
                },
            };
            updates.push(FieldUpdate { field, value });
            assert(updates_end(self@, start as int) == if tok(self@, start + 3) == TokenV::Comma {
                updates_end(self@, start + 4)
            } else {
                Some(start + 3)
            });
            q = q3;
            if !self.is(q, &Token::Comma) {
                return Ok((updates, q));
            }
        }
    }

    /// The target of UPDATE or DELETE: its kind and id. A comment id is an
    /// identifier or a number.
    fn parse_target(&self, p: usize) -> (r: ParseResult<(u8, String, usize)>)
        requires
            p <= self@.len(),
            self.bounded(),
        ensures
            r matches Ok((k, id, q)) ==> p < q <= self@.len() && k < 4 && target_at(self@, p as int, k, id@, q as int),
            r is Ok <==> target_ok(self@, p as int),
    {
        if self.is(p, &Token::User) {
            let (id, q) = match self.parse_identifier(p + 1, "user id") {
                Ok(x) => x,
                Err(e) => {
                    return Err(e);
                },
            };
            Ok((0, id, q))
        } else if self.is(p, &Token::Project) {
            let (id, q) = match self.parse_identifier(p + 1, "project id") {
                Ok(x) => x,
                Err(e) => {
                    return Err(e);
                },
            };
            Ok((1, id, q))
        } else if self.is(p, &Token::Issue) {
            let (id, q) = match self.parse_issue_id(p + 1) {
                Ok(x) => x,
                Err(e) => {
                    return Err(e);
                },
            };
            Ok((2, id.0, q))
        } else if self.is(p, &Token::Comment) {
            match self.at(p + 1) {
                Token::UnsignedInteger(n) => {
                    let mut v: Vec<char> = Vec::new();
                    push_decimal(&mut v, *n);
                    Ok((3, string_from_chars(v.as_slice()), p + 2))
                },
                _ => {
                    let (id, q) = match self.parse_identifier(p + 1, "comment id") {
                        Ok(x) => x,
                        Err(e) => {
                            return Err(e);
                        },
                    };
                    Ok((3, id, q))
                },
            }
        } else {
            self.unexpected(p, "USER, PROJECT, ISSUE, or COMMENT")
        }
    }
}

impl Tokens {
    /// CREATE USER `name` [WITH (EMAIL s | NAME s)+].
    fn parse_create_user(&self, p: usize) -> (r: ParseResult<(Statement, usize)>)
        requires
            p <= self@.len(),
            self.bounded(),
        ensures
            r matches Ok((st, q)) ==> p < q <= self@.len() && (st matches Statement::Create(CreateStatement::User { .. })) && create_user_end(
                self@,
                p as int,
            ) == Some(q as int),
            r is Err ==> create_user_end(self@, p as int) is None,
            r matches Ok((Statement::Create(CreateStatement::User { username, email, name }), q))
                ==> user_parsed(self@, p as int, username, email, name, q as int),
            (r matches Err(ParseError::MissingClause { .. })) <==> (field_name_of(tok(self@, p as int))
                is Some && tok(self@, p + 1) == TokenV::With && !is_user_key(tok(self@, p + 2))),
    {
        let (username, mut q) = match self.parse_identifier(p, "user name") {
            Ok(x) => x,
            Err(e) => {
                return Err(e);
            },
        };
        let mut email: Option<String> = None;
        let mut name: Option<String> = None;
        if self.is(q, &Token::With) {
            q = q + 1;
            let a = q;
            let mut found = false;
            loop
                invariant
                    p < a <= q <= self@.len(),
                    a == p + 2,
                    self.bounded(),
                    (q - a) % 2 == 0,
                    found == (q > a),
                    field_name_of(tok(self@, p as int)) == Some(username@),
                    tok(self@, p + 1) == TokenV::With,
                    opt_text(last_value(self@, a as int, q as int, TokenV::Email)) == opt_string_view(email),
                    opt_text(last_value(self@, a as int, q as int, TokenV::Name)) == opt_string_view(name),
                    user_bag_end(self@, a as int) == user_bag_end(self@, q as int),
                ensures
                    !is_user_key(tok(self@, q as int)),
                    user_bag_end(self@, a as int) == Some(q as int),
                    p < a <= q <= self@.len(),
                    (q - a) % 2 == 0,
                    found == (q > a),
                    opt_text(last_value(self@, a as int, q as int, TokenV::Email)) == opt_string_view(email),
                    opt_text(last_value(self@, a as int, q as int, TokenV::Name)) == opt_string_view(name),
                decreases self@.len() - q,
            {
                proof {
                    assert(last_value(self@, a as int, q + 2, TokenV::Email) == if tok(self@, q as int) == TokenV::Email { Some(tok(self@, q + 1)) } else { last_value(self@, a as int, q as int, TokenV::Email) });
                    assert(last_value(self@, a as int, q + 2, TokenV::Name) == if tok(self@, q as int) == TokenV::Name { Some(tok(self@, q + 1)) } else { last_value(self@, a as int, q as int, TokenV::Name) });
                    assert(user_bag_end(self@, q as int) == if 0 <= q < self@.len() && is_user_key(tok(self@, q as int)) {
                        if text_of(tok(self@, q + 1)) is Some { user_bag_end(self@, q + 2) } else { None }
                    } else {
                        Some(q as int)
                    });
                }
                if self.is(q, &Token::Email) {
                    let (v, q2) = match self.parse_string_value(q + 1, "EMAIL") {
                        Ok(x) => x,
                        Err(e) => {
                            return Err(e);
                        },
                    };
                    email = Some(v);
                    q = q2;
                } else if self.is(q, &Token::Name) {
                    let (v, q2) = match self.parse_string_value(q + 1, "NAME") {
                        Ok(x) => x,
                        Err(e) => {
                            return Err(e);
                        },
                    };
                    name = Some(v);
                    q = q2;
                } else {
                    break;
                }
                found = true;
            }
            if !found {
                return Err(
                    ParseError::MissingClause {
                        clause: copy_str("at least one of EMAIL or NAME"),
                        position: position_of_token(q),
                    },
                );
            }
        }
        Ok((Statement::Create(CreateStatement::User { username, email, name }), q))
    }

    /// CREATE PROJECT `id` [WITH (NAME s | DESCRIPTION s | OWNER id)+].
    fn parse_create_project(&self, p: usize) -> (r: ParseResult<(Statement, usize)>)
        requires
            p <= self@.len(),
            self.bounded(),
        ensures
            r matches Ok((st, q)) ==> p < q <= self@.len() && (st matches Statement::Create(CreateStatement::Project { .. })) && create_project_end(
                self@,
                p as int,
            ) == Some(q as int),
            r is Err ==> create_project_end(self@, p as int) is None,
            r matches Ok(
                (Statement::Create(CreateStatement::Project { project_id, name, description, owner }), q),
            ) ==> project_parsed(self@, p as int, project_id, name, description, owner, q as int),
            (r matches Err(ParseError::MissingClause { .. })) <==> (field_name_of(tok(self@, p as int))
                is Some && tok(self@, p + 1) == TokenV::With && !is_project_key(tok(self@, p + 2))),
    {
        let (project_id, mut q) = match self.parse_identifier(p, "project id") {
            Ok(x) => x,
            Err(e) => {
                return Err(e);
            },
        };
        let mut name: Option<String> = None;
        let mut description: Option<String> = None;
        let mut owner: Option<UserId> = None;
        if self.is(q, &Token::With) {
            q = q + 1;
            let a = q;
            let mut found = false;
            loop
                invariant
                    p < a <= q <= self@.len(),
                    a == p + 2,
                    self.bounded(),
                    (q - a) % 2 == 0,
                    found == (q > a),
                    field_name_of(tok(self@, p as int)) == Some(project_id@),
                    tok(self@, p + 1) == TokenV::With,
                    opt_text(last_value(self@, a as int, q as int, TokenV::Name)) == opt_string_view(name),
                    opt_text(last_value(self@, a as int, q as int, TokenV::Description)) == opt_string_view(description),
                    opt_field_name(last_value(self@, a as int, q as int, TokenV::Owner)) == opt_user_view(owner),
                    project_bag_end(self@, a as int) == project_bag_end(self@, q as int),
                ensures
                    !is_project_key(tok(self@, q as int)),
                    project_bag_end(self@, a as int) == Some(q as int),
                    p < a <= q <= self@.len(),
                    (q - a) % 2 == 0,
                    found == (q > a),
                    opt_text(last_value(self@, a as int, q as int, TokenV::Name)) == opt_string_view(name),
                    opt_text(last_value(self@, a as int, q as int, TokenV::Description)) == opt_string_view(description),
                    opt_field_name(last_value(self@, a as int, q as int, TokenV::Owner)) == opt_user_view(owner),
                decreases self@.len() - q,
            {
                proof {
                    assert(last_value(self@, a as int, q + 2, TokenV::Name) == if tok(self@, q as int) == TokenV::Name { Some(tok(self@, q + 1)) } else { last_value(self@, a as int, q as int, TokenV::Name) });
                    assert(last_value(self@, a as int, q + 2, TokenV::Description) == if tok(self@, q as int) == TokenV::Description { Some(tok(self@, q + 1)) } else { last_value(self@, a as int, q as int, TokenV::Description) });
                    assert(last_value(self@, a as int, q + 2, TokenV::Owner) == if tok(self@, q as int) == TokenV::Owner { Some(tok(self@, q + 1)) } else { last_value(self@, a as int, q as int, TokenV::Owner) });
                    assert(project_bag_end(self@, q as int) == if 0 <= q < self@.len() && is_project_key(tok(self@, q as int)) {
                        if (tok(self@, q as int) == TokenV::Owner && field_name_of(tok(self@, q + 1)) is Some) || (tok(self@, q as int)
                            != TokenV::Owner && text_of(tok(self@, q + 1)) is Some) {
                            project_bag_end(self@, q + 2)
                        } else {
                            None
                        }
                    } else {
                        Some(q as int)
                    });
                }
                if self.is(q, &Token::Name) {
                    let (v, q2) = match self.parse_string_value(q + 1, "NAME") {
                        Ok(x) => x,
                        Err(e) => {
                            return Err(e);
                        },
                    };
                    name = Some(v);
                    q = q2;
                } else if self.is(q, &Token::Description) {
                    let (v, q2) = match self.parse_string_value(q + 1, "DESCRIPTION") {
                        Ok(x) => x,
                        Err(e) => {
                            return Err(e);
                        },
                    };
                    description = Some(v);
                    q = q2;
                } else if self.is(q, &Token::Owner) {
                    let (v, q2) = match self.parse_identifier(q + 1, "OWNER") {
                        Ok(x) => x,
                        Err(e) => {
                            return Err(e);
                        },
                    };
                    owner = Some(UserId(v));
                    q = q2;
                } else {
                    break;
                }
                found = true;
            }
            if !found {
                return Err(
                    ParseError::MissingClause {
                        clause: copy_str("at least one of NAME, DESCRIPTION, or OWNER"),
                        position: position_of_token(q),
                    },
                );
            }
        }
        Ok((
            Statement::Create(
                CreateStatement::Project {
                    project_id: ProjectId(project_id),
                    name,
                    description,
                    owner,
                },
            ),
            q,
        ))
    }

    /// CREATE ISSUE OF KIND `kind` IN `project` WITH TITLE s [DESCRIPTION s]
    /// [PRIORITY p] [ASSIGNEE id], the WITH pairs in any order.
    fn parse_create_issue(&self, p: usize) -> (r: ParseResult<(Statement, usize)>)
        requires
            p <= self@.len(),
            self.bounded(),
        ensures
            r matches Ok((st, q)) ==> p < q <= self@.len() && (st matches Statement::Create(CreateStatement::Issue { .. })) && create_issue_end(
                self@,
                p as int,
            ) == Some(q as int),
            r is Err ==> create_issue_end(self@, p as int) is None,
            r matches Ok(
                (Statement::Create(CreateStatement::Issue { project, kind, title, description, priority, assignee }), q),
            ) ==> issue_parsed(self@, p as int, project, kind, title, description, priority, assignee, q as int),
            r matches Err(ParseError::MissingClause { clause, .. }) ==> issue_head_ok(self@, p as int) && (
            if tok(self@, p + 5) == TokenV::With {
                clause@ == "TITLE"@
            } else {
                clause@ == "WITH"@
            }),
            issue_head_ok(self@, p as int) && tok(self@, p + 5) != TokenV::With ==> (r matches Err(
                ParseError::MissingClause { .. },
            )),
            issue_head_ok(self@, p as int) && tok(self@, p + 5) == TokenV::With ==> (issue_bag_end(
                self@,
                p + 6,
            ) matches Some(q) && last_value(self@, p + 6, q, TokenV::Title) is None <==> r matches Err(
                ParseError::MissingClause { .. },
            )),
    {
        let q = match self.expect(p, &Token::Of, "OF") {
            Ok(q) => q,
            Err(e) => {
                return Err(e);
            },
        };
        let q = match self.expect(q, &Token::Kind, "KIND") {
            Ok(q) => q,
            Err(e) => {
                return Err(e);
            },
        };
        let (kind, q) = match self.parse_issue_kind(q) {
            Ok(x) => x,
            Err(e) => {
                return Err(e);
            },
        };
        let q = match self.expect(q, &Token::In, "IN") {
            Ok(q) => q,
            Err(e) => {
                return Err(e);
            },
        };
        let (project, q) = match self.parse_identifier(q, "project id") {
            Ok(x) => x,
            Err(e) => {
                return Err(e);
            },
        };
        if !self.is(q, &Token::With) {
            return Err(
                ParseError::MissingClause { clause: copy_str("WITH"), position: position_of_token(q) },
            );
        }
        let a = q + 1;
        let mut q = a;
        let mut title: Option<String> = None;
        let mut description: Option<String> = None;
        let mut priority: Option<Priority> = None;
        let mut assignee: Option<UserId> = None;
        loop
            invariant
                p < a <= q <= self@.len(),
                a == p + 6,
                self.bounded(),
                (q - a) % 2 == 0,
                tok(self@, p as int) == TokenV::Of && tok(self@, p + 1) == TokenV::Kind
                    && issue_kind_of(tok(self@, p + 2)) == Some(kind) && tok(self@, p + 3) == TokenV::In
                    && field_name_of(tok(self@, p + 4)) == Some(project@) && tok(self@, p + 5) == TokenV::With,
                opt_text(last_value(self@, a as int, q as int, TokenV::Title)) == opt_string_view(title),
                opt_text(last_value(self@, a as int, q as int, TokenV::Description)) == opt_string_view(description),
                opt_priority(last_value(self@, a as int, q as int, TokenV::Priority)) == priority,
                opt_field_name(last_value(self@, a as int, q as int, TokenV::Assignee)) == opt_user_view(assignee),
                (last_value(self@, a as int, q as int, TokenV::Title) is Some) == (title is Some),
                issue_bag_end(self@, a as int) == issue_bag_end(self@, q as int),
            ensures
                !is_issue_key(tok(self@, q as int)),
                issue_bag_end(self@, a as int) == Some(q as int),
                (last_value(self@, a as int, q as int, TokenV::Title) is Some) == (title is Some),
                opt_text(last_value(self@, a as int, q as int, TokenV::Title)) == opt_string_view(title),
                opt_text(last_value(self@, a as int, q as int, TokenV::Description)) == opt_string_view(description),
                opt_priority(last_value(self@, a as int, q as int, TokenV::Priority)) == priority,
                opt_field_name(last_value(self@, a as int, q as int, TokenV::Assignee)) == opt_user_view(assignee),
            decreases self@.len() - q,
        {
            proof {
                assert(last_value(self@, a as int, q + 2, TokenV::Title) == if tok(self@, q as int) == TokenV::Title { Some(tok(self@, q + 1)) } else { last_value(self@, a as int, q as int, TokenV::Title) });
                assert(last_value(self@, a as int, q + 2, TokenV::Description) == if tok(self@, q as int) == TokenV::Description { Some(tok(self@, q + 1)) } else { last_value(self@, a as int, q as int, TokenV::Description) });
                assert(last_value(self@, a as int, q + 2, TokenV::Priority) == if tok(self@, q as int) == TokenV::Priority { Some(tok(self@, q + 1)) } else { last_value(self@, a as int, q as int, TokenV::Priority) });
                assert(last_value(self@, a as int, q + 2, TokenV::Assignee) == if tok(self@, q as int) == TokenV::Assignee { Some(tok(self@, q + 1)) } else { last_value(self@, a as int, q as int, TokenV::Assignee) });
                assert(issue_bag_end(self@, q as int) == if 0 <= q < self@.len() && is_issue_key(tok(self@, q as int)) {
                    if (tok(self@, q as int) == TokenV::Priority && priority_of(tok(self@, q + 1)) is Some) || (tok(self@, q as int)
                        == TokenV::Assignee && field_name_of(tok(self@, q + 1)) is Some) || ((tok(self@, q as int)
                        == TokenV::Title || tok(self@, q as int) == TokenV::Description) && text_of(tok(self@, q + 1)) is Some) {
                        issue_bag_end(self@, q + 2)
                    } else {
                        None
                    }
                } else {
                    Some(q as int)
                });
            }
            if self.is(q, &Token::Title) {
                let (v, q2) = match self.parse_string_value(q + 1, "TITLE") {
                    Ok(x) => x,
                    Err(e) => {
                        return Err(e);
                    },
                };
                title = Some(v);
                q = q2;
            } else if self.is(q, &Token::Description) {
                let (v, q2) = match self.parse_string_value(q + 1, "DESCRIPTION") {
                    Ok(x) => x,
                    Err(e) => {
                        return Err(e);
                    },
                };
                description = Some(v);
                q = q2;
            } else if self.is(q, &Token::Priority) {
                let (v, q2) = match self.parse_priority(q + 1) {
                    Ok(x) => x,
                    Err(e) => {
                        return Err(e);
                    },
                };
                priority = Some(v);
                q = q2;
            } else if self.is(q, &Token::Assignee) {
                let (v, q2) = match self.parse_identifier(q + 1, "ASSIGNEE") {
                    Ok(x) => x,
                    Err(e) => {
                        return Err(e);
                    },
                };
                assignee = Some(UserId(v));
                q = q2;
            } else {
                break;
            }
        }
        match title {
            Some(title) => Ok((
                Statement::Create(
                    CreateStatement::Issue {
                        project: ProjectId(project),
                        kind,
                        title,
                        description,
                        priority,
                        assignee,
                    },
                ),
                q,
            )),
            None => Err(
                ParseError::MissingClause { clause: copy_str("TITLE"), position: position_of_token(q) },
            ),
        }
    }

    /// SELECT columns FROM entities [WHERE filter] [ORDER BY field [ASC|DESC]]
    /// [LIMIT n] [OFFSET n].
    #[verifier::rlimit(60)]
    fn parse_select(&self, p: usize) -> (r: ParseResult<(Statement, usize)>)
        requires
            p <= self@.len(),
            self.bounded(),
        ensures
            r matches Ok((st, q)) ==> p < q <= self@.len() && st is Select && select_end(self@, p as int)
                == Some(q as int),
            r is Err ==> select_end(self@, p as int) is None,
            r matches Ok((Statement::Select(s), q)) ==> select_parsed(self@, p as int, s, q as int),
    {
        let (columns, q) = match self.parse_columns(p) {
            Ok(x) => x,
            Err(e) => {
                return Err(e);
            },
        };
        let c = q;
        let q = match self.expect(q, &Token::From, "FROM") {
            Ok(q) => q,
            Err(e) => {
                return Err(e);
            },
        };
        let (from, mut q) = match self.parse_entity_type(q) {
            Ok(x) => x,
            Err(e) => {
                return Err(e);
            },
        };
        let mut filter: Option<FilterExpression> = None;
        assert(q == c + 2);
        if self.is(q, &Token::Where) {
            let (f, q2) = match self.parse_or_filter(q + 1) {
                Ok(x) => x,
                Err(e) => {
                    return Err(e);
                },
            };
            filter = Some(f);
            q = q2;
        }
        assert(filter is Some <==> tok(self@, c + 2) == TokenV::Where);
        let mut order_by: Option<OrderBy> = None;
        let ghost oi = q as int;
        if self.is(q, &Token::Order) {
            let q1 = match self.expect(q + 1, &Token::By, "BY") {
                Ok(q) => q,
                Err(e) => {
                    return Err(e);
                },
            };
            let (field, q2) = match self.parse_identifier(q1, "field name") {
                Ok(x) => x,
                Err(e) => {
                    return Err(e);
                },
            };
            q = q2;
            let direction = if self.is(q, &Token::Desc) {
                q = q + 1;
                OrderDirection::Desc
            } else {
                if self.is(q, &Token::Asc) {
                    q = q + 1;
                }
                OrderDirection::Asc
            };
            order_by = Some(OrderBy { field, direction });
        }
        let mut limit: Option<u64> = None;
        let ghost li = q as int;
        if self.is(q, &Token::Limit) {
            let (n, q2) = match self.parse_number(q + 1) {
                Ok(x) => x,
                Err(e) => {
                    return Err(e);
                },
            };
            limit = Some(n);
            q = q2;
        }
        let mut offset: Option<u64> = None;
        let ghost fi = q as int;
        if self.is(q, &Token::Offset) {
            let (n, q2) = match self.parse_number(q + 1) {
                Ok(x) => x,
                Err(e) => {
                    return Err(e);
                },
            };
            offset = Some(n);
            q = q2;
        }
        assert(tok(self@, c as int) == TokenV::From && entity_type_of(tok(self@, c + 1)) == Some(from));
        assert(columns_end(self@, p as int) == Some(c as int));
        assert(where_end(self@, c + 2) == Some(oi));
        assert(order_end(self@, oi) == Some(li));
        assert(number_clause_end(self@, li, TokenV::Limit) == Some(fi));
        assert(limit == number_at(self@, li, TokenV::Limit));
        assert(offset == number_at(self@, fi, TokenV::Offset));
        Ok((Statement::Select(SelectStatement { columns, from, filter, order_by, limit, offset }), q))
    }

    /// UPDATE target SET field = value, ….
    fn parse_update(&self, p: usize) -> (r: ParseResult<(Statement, usize)>)
        requires
            p <= self@.len(),
            self.bounded(),
        ensures
            r matches Ok((st, q)) ==> p < q <= self@.len() && st is Update && update_end(self@, p as int)
                == Some(q as int),
            r is Err ==> update_end(self@, p as int) is None,
            r matches Ok((Statement::Update(u), q)) ==> update_parsed(self@, p as int, u, q as int),
    {
        let (k, id, q) = match self.parse_target(p) {
            Ok(x) => x,
            Err(e) => {
                return Err(e);
            },
        };
        let m = q;
        let q = match self.expect(q, &Token::SetKw, "SET") {
            Ok(q) => q,
            Err(e) => {
                return Err(e);
            },
        };
        let (updates, q) = match self.parse_field_updates(q) {
            Ok(x) => x,
            Err(e) => {
                return Err(e);
            },
        };
        let entity = if k == 0 {
            UpdateTarget::User(UserId(id))
        } else if k == 1 {
            UpdateTarget::Project(ProjectId(id))
        } else if k == 2 {
            UpdateTarget::Issue(IssueId(id))
        } else {
            UpdateTarget::Comment(CommentId(id))
        };
        assert(target_at(self@, p as int, update_target_parts(entity).0, update_target_parts(entity).1, m as int));
        Ok((Statement::Update(UpdateStatement { entity, updates }), q))
    }

    /// DELETE target.
    fn parse_delete(&self, p: usize) -> (r: ParseResult<(Statement, usize)>)
        requires
            p <= self@.len(),
            self.bounded(),
        ensures
            r matches Ok((st, q)) ==> p < q <= self@.len() && st is Delete,
            r matches Ok((Statement::Delete(d), q)) ==> target_at(
                self@,
                p as int,
                delete_target_parts(d.entity).0,
                delete_target_parts(d.entity).1,
                q as int,
            ),
            r is Ok <==> target_ok(self@, p as int),
    {
        let (k, id, q) = match self.parse_target(p) {
            Ok(x) => x,
            Err(e) => {
                return Err(e);
            },
        };
        let entity = if k == 0 {
            DeleteTarget::User(UserId(id))
        } else if k == 1 {
            DeleteTarget::Project(ProjectId(id))
        } else if k == 2 {
            DeleteTarget::Issue(IssueId(id))
        } else {
            DeleteTarget::Comment(CommentId(id))
        };
        Ok((Statement::Delete(DeleteStatement { entity }), q))
    }

    /// ASSIGN ISSUE id TO user.
    fn parse_assign(&self, p: usize) -> (r: ParseResult<(Statement, usize)>)
        requires
            p <= self@.len(),
            self.bounded(),
        ensures
            r is Ok <==> assign_ok(self@, p as int),
            r matches Ok((st, q)) ==> q == p + 6 && q <= self@.len() && (st matches Statement::Assign(a)
                && tok(self@, p as int) == TokenV::Issue && issue_id_at(self@, p + 1) == Some(
                a.issue_id.0@,
            ) && tok(self@, p + 4) == TokenV::To && field_name_of(tok(self@, p + 5)) == Some(
                a.assignee.0@,
            )),
    {
        let q = match self.expect(p, &Token::Issue, "ISSUE") {
            Ok(q) => q,
            Err(e) => {
                return Err(e);
            },
        };
        let (issue_id, q) = match self.parse_issue_id(q) {
            Ok(x) => x,
            Err(e) => {
                return Err(e);
            },
        };
        let q = match self.expect(q, &Token::To, "TO") {
            Ok(q) => q,
            Err(e) => {
                return Err(e);
            },
        };
        let (assignee, q) = match self.parse_identifier(q, "assignee") {
            Ok(x) => x,
            Err(e) => {
                return Err(e);
            },
        };
        Ok((Statement::Assign(AssignStatement { issue_id, assignee: UserId(assignee) }), q))
    }

    /// CLOSE ISSUE id [WITH reason].
    fn parse_close(&self, p: usize) -> (r: ParseResult<(Statement, usize)>)
        requires
            p <= self@.len(),
            self.bounded(),
        ensures
            r is Ok <==> close_ok(self@, p as int),
            r matches Ok((Statement::Close(c), q)) ==> q == if c.reason is Some {
                p + 6
            } else {
                p + 4
            },
            r matches Ok((st, q)) ==> p < q <= self@.len() && (st matches Statement::Close(c)
                && tok(self@, p as int) == TokenV::Issue && issue_id_at(self@, p + 1) == Some(
                c.issue_id.0@,
            ) && match c.reason {
                Some(x) => tok(self@, p + 4) == TokenV::With && close_reason_of(tok(self@, p + 5))
                    == Some(x),
                None => tok(self@, p + 4) != TokenV::With,
            }),
    {
        let q = match self.expect(p, &Token::Issue, "ISSUE") {
            Ok(q) => q,
            Err(e) => {
                return Err(e);
            },
        };
        let (issue_id, q) = match self.parse_issue_id(q) {
            Ok(x) => x,
            Err(e) => {
                return Err(e);
            },
        };
        if self.is(q, &Token::With) {
            let (reason, q2) = match self.parse_close_reason(q + 1) {
                Ok(x) => x,
                Err(e) => {
                    return Err(e);
                },
            };
            Ok((Statement::Close(CloseStatement { issue_id, reason: Some(reason) }), q2))
        } else {
            Ok((Statement::Close(CloseStatement { issue_id, reason: None }), q))
        }
    }

    /// REOPEN ISSUE id.
    fn parse_reopen(&self, p: usize) -> (r: ParseResult<(Statement, usize)>)
        requires
            p <= self@.len(),
            self.bounded(),
        ensures
            r is Ok <==> reopen_ok(self@, p as int),
            r matches Ok((st, q)) ==> q == p + 4 && q <= self@.len() && (st matches Statement::Reopen(c)
                && tok(self@, p as int) == TokenV::Issue && issue_id_at(self@, p + 1) == Some(
                c.issue_id.0@,
            )),
    {
        let q = match self.expect(p, &Token::Issue, "ISSUE") {
            Ok(q) => q,
            Err(e) => {
                return Err(e);
            },
        };
        let (issue_id, q) = match self.parse_issue_id(q) {
            Ok(x) => x,
            Err(e) => {
                return Err(e);
            },
        };
        Ok((Statement::Reopen(ReopenStatement { issue_id }), q))
    }

    /// COMMENT ON ISSUE id WITH text.
    fn parse_comment(&self, p: usize) -> (r: ParseResult<(Statement, usize)>)
        requires
            p <= self@.len(),
            self.bounded(),
        ensures
            r is Ok <==> comment_ok(self@, p as int),
            r matches Ok((st, q)) ==> q == p + 7 && q <= self@.len() && (st matches Statement::Comment(c)
                && tok(self@, p as int) == TokenV::On && tok(self@, p + 1) == TokenV::Issue
                && issue_id_at(self@, p + 2) == Some(c.issue_id.0@) && tok(self@, p + 5)
                == TokenV::With && text_of(tok(self@, p + 6)) == Some(c.content@)),
    {
        let q = match self.expect(p, &Token::On, "ON") {
            Ok(q) => q,
            Err(e) => {
                return Err(e);
            },
        };
        let q = match self.expect(q, &Token::Issue, "ISSUE") {
            Ok(q) => q,
            Err(e) => {
                return Err(e);
            },
        };
        let (issue_id, q) = match self.parse_issue_id(q) {
            Ok(x) => x,
            Err(e) => {
                return Err(e);
            },
        };
        let q = match self.expect(q, &Token::With, "WITH") {
            Ok(q) => q,
            Err(e) => {
                return Err(e);
            },
        };
        let (content, q) = match self.parse_string_value(q, "comment text") {
            Ok(x) => x,
            Err(e) => {
                return Err(e);
            },
        };
        Ok((Statement::Comment(CommentStatement { issue_id, content }), q))
    }

    /// A statement, chosen by its first token.
    pub fn parse_statement(&self) -> (r: ParseResult<Statement>)
        requires
            self.bounded(),
        ensures
            tok(self@, 0) == TokenV::Eof ==> r matches Err(ParseError::UnexpectedEof),
            r matches Ok(st) ==> match st {
                Statement::Create(_) => tok(self@, 0) == TokenV::Create,
                Statement::Select(_) => tok(self@, 0) == TokenV::Select,
                Statement::Update(_) => tok(self@, 0) == TokenV::Update,
                Statement::Delete(_) => tok(self@, 0) == TokenV::Delete,
                Statement::Assign(_) => tok(self@, 0) == TokenV::Assign,
                Statement::Close(_) => tok(self@, 0) == TokenV::Close,
                Statement::Reopen(_) => tok(self@, 0) == TokenV::Reopen,
                Statement::Comment(_) => tok(self@, 0) == TokenV::Comment,
            },
            r matches Ok(Statement::Close(c)) ==> tok(self@, 1) == TokenV::Issue && issue_id_at(
                self@,
                2,
            ) == Some(c.issue_id.0@),
            r matches Ok(Statement::Reopen(c)) ==> tok(self@, 1) == TokenV::Issue && issue_id_at(
                self@,
                2,
            ) == Some(c.issue_id.0@),
            r matches Ok(Statement::Comment(c)) ==> issue_id_at(self@, 3) == Some(c.issue_id.0@)
                && text_of(tok(self@, 7)) == Some(c.content@),
            r matches Ok(Statement::Assign(a)) ==> issue_id_at(self@, 2) == Some(a.issue_id.0@)
                && field_name_of(tok(self@, 6)) == Some(a.assignee.0@),
            r is Ok <==> statement_ok(self@),
            r matches Ok(st) ==> statement_parsed(self@, st),
            tok(self@, 0) == TokenV::Close ==> (r is Ok <==> close_ok(self@, 1)),
            tok(self@, 0) == TokenV::Reopen ==> (r is Ok <==> reopen_ok(self@, 1)),
            tok(self@, 0) == TokenV::Assign ==> (r is Ok <==> assign_ok(self@, 1)),
            tok(self@, 0) == TokenV::Comment ==> (r is Ok <==> comment_ok(self@, 1)),
            tok(self@, 0) == TokenV::Delete ==> (r is Ok <==> target_ok(self@, 1)),
            r matches Ok(Statement::Delete(d)) ==> exists|q: int|
                target_at(self@, 1, delete_target_parts(d.entity).0, delete_target_parts(d.entity).1, q),
            r matches Ok(Statement::Update(u)) ==> exists|m: int|
                target_at(self@, 1, update_target_parts(u.entity).0, update_target_parts(u.entity).1, m)
                    && tok(self@, m) == TokenV::SetKw,
    {
        let first = self.at(0);
        let res = match first {
            Token::Create => match self.at(1) {
                Token::User => self.parse_create_user(2),
                Token::Project => self.parse_create_project(2),
                Token::Issue => self.parse_create_issue(2),
                _ => self.unexpected(1, "USER, PROJECT or ISSUE"),
            },
            Token::Select => self.parse_select(1),
            Token::Update => self.parse_update(1),
            Token::Delete => self.parse_delete(1),
            Token::Assign => self.parse_assign(1),
            Token::Close => self.parse_close(1),
            Token::Reopen => self.parse_reopen(1),
            Token::Comment => self.parse_comment(1),
            Token::Eof => Err(ParseError::UnexpectedEof),
            _ => self.unexpected(0, "statement keyword"),
        };
        match res {
            Ok((st, q)) => {
                proof {
                    if tok(self@, 0) == TokenV::Create {
                        assert(statement_parsed_to(self@, st, q as int));
                    } else if tok(self@, 0) == TokenV::Select {
                        assert(statement_parsed_to(self@, st, q as int));
                    } else if tok(self@, 0) == TokenV::Update {
                        assert(statement_parsed_to(self@, st, q as int));
                    } else if tok(self@, 0) == TokenV::Delete {
                        assert(statement_parsed_to(self@, st, q as int));
                    } else if tok(self@, 0) == TokenV::Assign {
                        assert(statement_parsed_to(self@, st, q as int));
                    } else if tok(self@, 0) == TokenV::Close {
                        assert(statement_parsed_to(self@, st, q as int));
                    } else if tok(self@, 0) == TokenV::Reopen {
                        assert(statement_parsed_to(self@, st, q as int));
                    } else {
                        assert(statement_parsed_to(self@, st, q as int));
                    }
                }
                Ok(st)
            },
            Err(e) => Err(e),
        }
    }
}

/// A parser over the tokens of one statement.
pub struct Parser {
    tokens: Tokens,
    failure: Option<ParseError>,
    source: Ghost<Seq<char>>,
}

impl Parser {
    /// The text the parser was made from.
    pub closed spec fn source(&self) -> Seq<char> {
        self.source@
    }

    /// The tokens are those of the source, few enough for positions to stay
    /// in range; otherwise the failure to report is kept.
    pub closed spec fn wf(&self) -> bool {
        &&& self.tokens.bounded()
        &&& self.failure is None ==> lex(self.source@) == Ok::<Seq<TokenV>, (LexFailure, int, int)>(
            self.tokens@,
        )
        &&& self.failure is Some ==> !(lex(self.source@) matches Ok(t) && t.len() + 8 <= usize::MAX)
    }

    /// Splits `input` into tokens; a lexical error is kept and reported by
    /// `parse`.
    pub fn new(input: &str) -> (r: Parser)
        ensures
            r.wf(),
            r.source() == input@,
    {
        let chars = chars_of(input);
        match lex_chars(&chars) {
            Ok(items) => {
                if items.len() <= usize::MAX - 8 {
                    Parser { tokens: Tokens { items }, failure: None, source: Ghost(input@) }
                } else {
                    Parser {
                        tokens: Tokens { items: Vec::new() },
                        failure: Some(ParseError::General(copy_str("query too long"))),
                        source: Ghost(input@),
                    }
                }
            },
            Err(e) => {
                let failure = lex_failure(&chars, e);
                let tokens = Tokens { items: Vec::new() };
                assert(tokens@.len() == 0);
                Parser { tokens, failure: Some(failure), source: Ghost(input@) }
            },
        }
    }

    /// Parses the statement: it succeeds exactly when the source's tokens
    /// form a statement.
    pub fn parse(&self) -> (r: ParseResult<Statement>)
        requires
            self.wf(),
        ensures
            r is Ok <==> query_ok(self.source()),
            r matches Ok(st) ==> query_parsed(self.source(), st),
            r is Ok ==> lex(self.source()) is Ok,
            lex(self.source()) matches Ok(t) ==> (t.len() + 8 <= usize::MAX ==> (r is Ok
                <==> statement_ok(t))),
    {
        match &self.failure {
            Some(e) => Err(e.clone()),
            None => self.tokens.parse_statement(),
        }
    }
}

/// The parse error for a lexical error: the bad characters, and where
/// they start.
fn lex_failure(chars: &Vec<char>, e: crate::lexer::LexError) -> (r: ParseError)
    requires
        e.start <= e.end <= chars@.len(),
{
    let slice = string_from_chars(copy_range(chars, e.start, e.end).as_slice());
    match e.kind {
        LexFailure::Unterminated => ParseError::UnterminatedString { position: e.start },
        LexFailure::NumberTooLarge => ParseError::InvalidNumber { value: slice, position: e.start },
        LexFailure::Unrecognized => ParseError::InvalidSyntax { message: slice, position: e.start },
    }
}

/// The text lexes to few enough tokens, and they form a statement.
pub open spec fn query_ok(text: Seq<char>) -> bool {
    lex(text) matches Ok(t) && t.len() + 8 <= usize::MAX && statement_ok(t)
}

/// The statement that `text` spells.
pub open spec fn query_parsed(text: Seq<char>, st: Statement) -> bool {
    lex(text) matches Ok(t) && statement_parsed(t, st)
}

/// Parses one statement of the query language.
pub fn parse_query(query: &str) -> (r: ParseResult<Statement>)
    ensures
        r is Ok <==> query_ok(query@),
        r matches Ok(st) ==> query_parsed(query@, st),
        r is Ok ==> lex(query@) is Ok,
        lex(query@) matches Ok(t) ==> (t.len() + 8 <= usize::MAX && tok(t, 0) == TokenV::Eof ==> r matches Err(ParseError::UnexpectedEof)),
        r matches Ok(st) ==> (lex(query@) matches Ok(t) && match st {
            Statement::Create(_) => tok(t, 0) == TokenV::Create,
            Statement::Select(_) => tok(t, 0) == TokenV::Select,
            Statement::Update(_) => tok(t, 0) == TokenV::Update,
            Statement::Delete(_) => tok(t, 0) == TokenV::Delete,
            Statement::Assign(_) => tok(t, 0) == TokenV::Assign,
            Statement::Close(c) => tok(t, 0) == TokenV::Close && issue_id_at(t, 2) == Some(c.issue_id.0@),
            Statement::Reopen(c) => tok(t, 0) == TokenV::Reopen && issue_id_at(t, 2) == Some(c.issue_id.0@),
            Statement::Comment(c) => tok(t, 0) == TokenV::Comment && issue_id_at(t, 3) == Some(c.issue_id.0@)
                && text_of(tok(t, 7)) == Some(c.content@),
        }),
        r matches Ok(Statement::Assign(a)) ==> (lex(query@) matches Ok(t) && issue_id_at(t, 2) == Some(
            a.issue_id.0@,
        ) && field_name_of(tok(t, 6)) == Some(a.assignee.0@)),
        r matches Ok(Statement::Delete(d)) ==> (lex(query@) matches Ok(t) && exists|q: int|
            target_at(t, 1, delete_target_parts(d.entity).0, delete_target_parts(d.entity).1, q)),
        lex(query@) matches Ok(t) ==> (t.len() + 8 <= usize::MAX ==> {
            &&& (r is Ok <==> statement_ok(t))
            &&& tok(t, 0) == TokenV::Close ==> (r is Ok <==> close_ok(t, 1))
            &&& tok(t, 0) == TokenV::Reopen ==> (r is Ok <==> reopen_ok(t, 1))
            &&& tok(t, 0) == TokenV::Assign ==> (r is Ok <==> assign_ok(t, 1))
            &&& tok(t, 0) == TokenV::Comment ==> (r is Ok <==> comment_ok(t, 1))
            &&& tok(t, 0) == TokenV::Delete ==> (r is Ok <==> target_ok(t, 1))
        }),
{
    let chars = chars_of(query);
    match lex_chars(&chars) {
        Ok(items) => {
            if items.len() <= usize::MAX - 8 {
                let tokens = Tokens { items };
                tokens.parse_statement()
            } else {
                Err(ParseError::General(copy_str("query too long")))
            }
        },
        Err(e) => Err(lex_failure(&chars, e)),
    }
}

/// Positions in errors count tokens from one.
fn position_of_token(p: usize) -> (r: usize)
    ensures
        r == if p < usize::MAX { p + 1 } else { p as int },
{
    if p < usize::MAX {
        p + 1
    } else {
        p
    }
}

/// The token that stands past the end.
const EOF: Token = Token::Eof;

} // verus!
