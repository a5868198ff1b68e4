use vstd::prelude::*;

use crate::text::{
    copy_str, chars_of, char_eq_ci, is_alpha, is_digit, slice_eq_ci, string_from_chars, word_eq_ci,
};

verus! {

/// A lexical unit of the query language.
#[derive(Debug, Clone, PartialEq)]
pub enum Token {
    /// A keyword; keywords are matched ignoring ASCII case.
    Create,
    Select,
    Update,
    Delete,
    Assign,
    Close,
    Reopen,
    Comment,
    From,
    Where,
    And,
    Or,
    Not,
    In,
    Of,
    Is,
    Null,
    SetKw,
    To,
    On,
    With,
    Order,
    By,
    Limit,
    Offset,
    Asc,
    Desc,
    Like,
    User,
    Project,
    Issue,
    Issues,
    Users,
    Projects,
    Comments,
    Email,
    Name,
    Title,
    Kind,
    Description,
    Priority,
    Assignee,
    Owner,
    Duplicate,
    WontFix,
    Done,
    Epic,
    Improvement,
    Bug,
    Task,
    Critical,
    High,
    Medium,
    Low,
    True,
    False,
    /// A quoted string, escapes resolved.
    String(String),
    /// A negative integer such as `-12`.
    Integer(i64),
    /// An integer without sign.
    UnsignedInteger(u64),
    /// A decimal such as `3.14` or `-0.5`, kept as written.
    Float(String),
    Identifier(String),
    Star,
    Comma,
    Dot,
    Hash,
    Equal,
    NotEqual,
    GreaterThan,
    LessThan,
    GreaterOrEqual,
    LessOrEqual,
    LeftParen,
    RightParen,
    LeftBracket,
    RightBracket,
    /// End of input.
    Eof,
}

/// What a token holds, with strings as character sequences.
pub enum TokenV {
    Create,
    Select,
    Update,
    Delete,
    Assign,
    Close,
    Reopen,
    Comment,
    From,
    Where,
    And,
    Or,
    Not,
    In,
    Of,
    Is,
    Null,
    SetKw,
    To,
    On,
    With,
    Order,
    By,
    Limit,
    Offset,
    Asc,
    Desc,
    Like,
    User,
    Project,
    Issue,
    Issues,
    Users,
    Projects,
    Comments,
    Email,
    Name,
    Title,
    Kind,
    Description,
    Priority,
    Assignee,
    Owner,
    Duplicate,
    WontFix,
    Done,
    Epic,
    Improvement,
    Bug,
    Task,
    Critical,
    High,
    Medium,
    Low,
    True,
    False,
    String(Seq<char>),
    Integer(i64),
    UnsignedInteger(u64),
    Float(Seq<char>),
    Identifier(Seq<char>),
    Star,
    Comma,
    Dot,
    Hash,
    Equal,
    NotEqual,
    GreaterThan,
    LessThan,
    GreaterOrEqual,
    LessOrEqual,
    LeftParen,
    RightParen,
    LeftBracket,
    RightBracket,
    Eof,
}

impl View for Token {
    type V = TokenV;

    open spec fn view(&self) -> TokenV {
        match self {
            Token::Create => TokenV::Create,
            Token::Select => TokenV::Select,
            Token::Update => TokenV::Update,
            Token::Delete => TokenV::Delete,
            Token::Assign => TokenV::Assign,
            Token::Close => TokenV::Close,
            Token::Reopen => TokenV::Reopen,
            Token::Comment => TokenV::Comment,
            Token::From => TokenV::From,
            Token::Where => TokenV::Where,
            Token::And => TokenV::And,
            Token::Or => TokenV::Or,
            Token::Not => TokenV::Not,
            Token::In => TokenV::In,
            Token::Of => TokenV::Of,
            Token::Is => TokenV::Is,
            Token::Null => TokenV::Null,
            Token::SetKw => TokenV::SetKw,
            Token::To => TokenV::To,
            Token::On => TokenV::On,
            Token::With => TokenV::With,
            Token::Order => TokenV::Order,
            Token::By => TokenV::By,
            Token::Limit => TokenV::Limit,
            Token::Offset => TokenV::Offset,
            Token::Asc => TokenV::Asc,
            Token::Desc => TokenV::Desc,
            Token::Like => TokenV::Like,
            Token::User => TokenV::User,
            Token::Project => TokenV::Project,
            Token::Issue => TokenV::Issue,
            Token::Issues => TokenV::Issues,
            Token::Users => TokenV::Users,
            Token::Projects => TokenV::Projects,
            Token::Comments => TokenV::Comments,
            Token::Email => TokenV::Email,
            Token::Name => TokenV::Name,
            Token::Title => TokenV::Title,
            Token::Kind => TokenV::Kind,
            Token::Description => TokenV::Description,
            Token::Priority => TokenV::Priority,
            Token::Assignee => TokenV::Assignee,
            Token::Owner => TokenV::Owner,
            Token::Duplicate => TokenV::Duplicate,
            Token::WontFix => TokenV::WontFix,
            Token::Done => TokenV::Done,
            Token::Epic => TokenV::Epic,
            Token::Improvement => TokenV::Improvement,
            Token::Bug => TokenV::Bug,
            Token::Task => TokenV::Task,
            Token::Critical => TokenV::Critical,
            Token::High => TokenV::High,
            Token::Medium => TokenV::Medium,
            Token::Low => TokenV::Low,
            Token::True => TokenV::True,
            Token::False => TokenV::False,
            Token::Star => TokenV::Star,
            Token::Comma => TokenV::Comma,
            Token::Dot => TokenV::Dot,
            Token::Hash => TokenV::Hash,
            Token::Equal => TokenV::Equal,
            Token::NotEqual => TokenV::NotEqual,
            Token::GreaterThan => TokenV::GreaterThan,
            Token::LessThan => TokenV::LessThan,
            Token::GreaterOrEqual => TokenV::GreaterOrEqual,
            Token::LessOrEqual => TokenV::LessOrEqual,
            Token::LeftParen => TokenV::LeftParen,
            Token::RightParen => TokenV::RightParen,
            Token::LeftBracket => TokenV::LeftBracket,
            Token::RightBracket => TokenV::RightBracket,
            Token::String(s) => TokenV::String(s@),
            Token::Integer(n) => TokenV::Integer(*n),
            Token::UnsignedInteger(n) => TokenV::UnsignedInteger(*n),
            Token::Float(s) => TokenV::Float(s@),
            Token::Identifier(s) => TokenV::Identifier(s@),
            Token::Eof => TokenV::Eof,
        }
    }
}

pub open spec fn view_tokens(v: Seq<Token>) -> Seq<TokenV> {
    v.map_values(|t: Token| t@)
}

/// Why the input could not be split into tokens.
#[derive(Debug, Clone, Copy, PartialEq, Eq)]
pub enum LexFailure {
    /// No token starts with these characters.
    Unrecognized,
    /// A quote without its closing quote.
    Unterminated,
    /// An integer outside the range of its type.
    NumberTooLarge,
}

/// A lexical error: its kind and the characters `start..end` of the input.
#[derive(Debug, Clone, Copy, PartialEq, Eq)]
pub struct LexError {
    pub kind: LexFailure,
    pub start: usize,
    pub end: usize,
}

pub open spec fn is_ws(c: char) -> bool {
    c == ' ' || c == '\t' || c == '\n' || c == '\x0C' || c == '\r'
}

pub open spec fn is_ident_start(c: char) -> bool {
    is_alpha(c) || c == '_'
}

pub open spec fn is_ident_char(c: char) -> bool {
    is_alpha(c) || is_digit(c) || c == '_' || c == '-'
}

/// First position at or after `i` that holds no whitespace.
pub open spec fn ws_end(s: Seq<char>, i: int) -> int
    decreases s.len() - i,
{
    if 0 <= i < s.len() && is_ws(s[i]) {
        ws_end(s, i + 1)
    } else {
        i
    }
}

/// First position at or after `i` that holds no identifier character.
pub open spec fn ident_end(s: Seq<char>, i: int) -> int
    decreases s.len() - i,
{
    if 0 <= i < s.len() && is_ident_char(s[i]) {
        ident_end(s, i + 1)
    } else {
        i
    }
}

/// First position at or after `i` that holds no decimal digit.
pub open spec fn digits_end(s: Seq<char>, i: int) -> int
    decreases s.len() - i,
{
    if 0 <= i < s.len() && is_digit(s[i]) {
        digits_end(s, i + 1)
    } else {
        i
    }
}

/// The number that a run of decimal digits spells.
pub open spec fn digits_value(d: Seq<char>) -> nat
    decreases d.len(),
{
    if d.len() == 0 {
        0
    } else {
        digits_value(d.drop_last()) * 10 + ((d.last() as u32 - '0' as u32) as nat)
    }
}

/// Position of the quote `q` that closes a string whose content starts at `i`.
pub open spec fn quoted_end(s: Seq<char>, q: char, i: int) -> Option<int>
    decreases s.len() - i,
{
    if i < 0 || i >= s.len() {
        None
    } else if s[i] == q {
        Some(i)
    } else if s[i] == '\\' {
        if i + 1 < s.len() && s[i + 1] != '\n' {
            quoted_end(s, q, i + 2)
        } else {
            None
        }
    } else {
        quoted_end(s, q, i + 1)
    }
}

/// What a backslash followed by `c` stands for inside a string.
pub open spec fn escape_of(c: char) -> Seq<char> {
    if c == '\\' {
        seq!['\\']
    } else if c == 'n' {
        seq!['\n']
    } else if c == 't' {
        seq!['\t']
    } else if c == 'r' {
        seq!['\r']
    } else if c == '\'' {
        seq!['\'']
    } else if c == '"' {
        seq!['"']
    } else if c == '0' {
        seq!['\0']
    } else {
        seq!['\\', c]
    }
}

/// The content of a string literal with its escapes resolved.
pub open spec fn unescape(s: Seq<char>) -> Seq<char>
    decreases s.len(),
{
    if s.len() == 0 {
        seq![]
    } else if s[0] == '\\' {
        if s.len() == 1 {
            seq!['\\']
        } else {
            escape_of(s[1]) + unescape(s.subrange(2, s.len() as int))
        }
    } else {
        seq![s[0]] + unescape(s.subrange(1, s.len() as int))
    }
}

/// The keyword that the word `w` spells, if any.
pub open spec fn keyword_of(w: Seq<char>) -> Option<TokenV> {
    if word_eq_ci(w, "create"@) { Some(TokenV::Create) } else
    if word_eq_ci(w, "select"@) { Some(TokenV::Select) } else
    if word_eq_ci(w, "update"@) { Some(TokenV::Update) } else
    if word_eq_ci(w, "delete"@) { Some(TokenV::Delete) } else
    if word_eq_ci(w, "assign"@) { Some(TokenV::Assign) } else
    if word_eq_ci(w, "close"@) { Some(TokenV::Close) } else
    if word_eq_ci(w, "reopen"@) { Some(TokenV::Reopen) } else
    if word_eq_ci(w, "comment"@) { Some(TokenV::Comment) } else
    if word_eq_ci(w, "from"@) { Some(TokenV::From) } else
    if word_eq_ci(w, "where"@) { Some(TokenV::Where) } else
    if word_eq_ci(w, "and"@) { Some(TokenV::And) } else
    if word_eq_ci(w, "or"@) { Some(TokenV::Or) } else
    if word_eq_ci(w, "not"@) { Some(TokenV::Not) } else
    if word_eq_ci(w, "in"@) { Some(TokenV::In) } else
    if word_eq_ci(w, "of"@) { Some(TokenV::Of) } else
    if word_eq_ci(w, "is"@) { Some(TokenV::Is) } else
    if word_eq_ci(w, "null"@) { Some(TokenV::Null) } else
    if word_eq_ci(w, "set"@) { Some(TokenV::SetKw) } else
    if word_eq_ci(w, "to"@) { Some(TokenV::To) } else
    if word_eq_ci(w, "on"@) { Some(TokenV::On) } else
    if word_eq_ci(w, "with"@) { Some(TokenV::With) } else
    if word_eq_ci(w, "order"@) { Some(TokenV::Order) } else
    if word_eq_ci(w, "by"@) { Some(TokenV::By) } else
    if word_eq_ci(w, "limit"@) { Some(TokenV::Limit) } else
    if word_eq_ci(w, "offset"@) { Some(TokenV::Offset) } else
    if word_eq_ci(w, "asc"@) { Some(TokenV::Asc) } else
    if word_eq_ci(w, "desc"@) { Some(TokenV::Desc) } else
    if word_eq_ci(w, "like"@) { Some(TokenV::Like) } else
    if word_eq_ci(w, "user"@) { Some(TokenV::User) } else
    if word_eq_ci(w, "project"@) { Some(TokenV::Project) } else
    if word_eq_ci(w, "issue"@) { Some(TokenV::Issue) } else
    if word_eq_ci(w, "issues"@) { Some(TokenV::Issues) } else
    if word_eq_ci(w, "users"@) { Some(TokenV::Users) } else
    if word_eq_ci(w, "projects"@) { Some(TokenV::Projects) } else
    if word_eq_ci(w, "comments"@) { Some(TokenV::Comments) } else
    if word_eq_ci(w, "email"@) { Some(TokenV::Email) } else
    if word_eq_ci(w, "name"@) { Some(TokenV::Name) } else
    if word_eq_ci(w, "title"@) { Some(TokenV::Title) } else
    if word_eq_ci(w, "kind"@) { Some(TokenV::Kind) } else
    if word_eq_ci(w, "description"@) { Some(TokenV::Description) } else
    if word_eq_ci(w, "priority"@) { Some(TokenV::Priority) } else
    if word_eq_ci(w, "assignee"@) { Some(TokenV::Assignee) } else
    if word_eq_ci(w, "owner"@) { Some(TokenV::Owner) } else
    if word_eq_ci(w, "duplicate"@) { Some(TokenV::Duplicate) } else
    if word_eq_ci(w, "wontfix"@) { Some(TokenV::WontFix) } else
    if word_eq_ci(w, "done"@) { Some(TokenV::Done) } else
    if word_eq_ci(w, "epic"@) { Some(TokenV::Epic) } else
    if word_eq_ci(w, "improvement"@) { Some(TokenV::Improvement) } else
    if word_eq_ci(w, "bug"@) { Some(TokenV::Bug) } else
    if word_eq_ci(w, "task"@) { Some(TokenV::Task) } else
    if word_eq_ci(w, "critical"@) { Some(TokenV::Critical) } else
    if word_eq_ci(w, "high"@) { Some(TokenV::High) } else
    if word_eq_ci(w, "medium"@) { Some(TokenV::Medium) } else
    if word_eq_ci(w, "low"@) { Some(TokenV::Low) } else
    if word_eq_ci(w, "true"@) { Some(TokenV::True) } else
    if word_eq_ci(w, "false"@) { Some(TokenV::False) } else
    { None }
}

/// One step of the scanner at a position holding no whitespace.
pub enum Scan {
    Tok(TokenV, int),
    Fail(LexFailure, int),
}

/// A number, or a decimal, that starts at `i`; the digits start at `d`.
pub open spec fn scan_number(s: Seq<char>, i: int, d: int, negative: bool) -> Scan {
    let j = digits_end(s, d);
    if j + 1 < s.len() && s[j] == '.' && is_digit(s[j + 1]) {
        let k = digits_end(s, j + 1);
        Scan::Tok(TokenV::Float(s.subrange(i, k)), k)
    } else {
        let v = digits_value(s.subrange(d, j));
        if negative {
            if v <= 0x8000_0000_0000_0000 {
                Scan::Tok(TokenV::Integer((-v) as i64), j)
            } else {
                Scan::Fail(LexFailure::NumberTooLarge, j)
            }
        } else {
            if v <= u64::MAX {
                Scan::Tok(TokenV::UnsignedInteger(v as u64), j)
            } else {
                Scan::Fail(LexFailure::NumberTooLarge, j)
            }
        }
    }
}

/// The token that starts at `i`, and where it ends.
pub open spec fn scan_token(s: Seq<char>, i: int) -> Scan {
    let c = s[i];
    let next_is = |x: char| i + 1 < s.len() && s[i + 1] == x;
    if is_ident_start(c) {
        let j = ident_end(s, i + 1);
        match keyword_of(s.subrange(i, j)) {
            Some(t) => Scan::Tok(t, j),
            None => Scan::Tok(TokenV::Identifier(s.subrange(i, j)), j),
        }
    } else if is_digit(c) {
        scan_number(s, i, i, false)
    } else if c == '-' {
        if i + 1 < s.len() && is_digit(s[i + 1]) {
            scan_number(s, i, i + 1, true)
        } else {
            Scan::Fail(LexFailure::Unrecognized, i + 1)
        }
    } else if c == '\'' || c == '"' {
        match quoted_end(s, c, i + 1) {
            Some(k) => Scan::Tok(TokenV::String(unescape(s.subrange(i + 1, k))), k + 1),
            None => Scan::Fail(LexFailure::Unterminated, s.len() as int),
        }
    } else if c == '!' {
        if next_is('=') {
            Scan::Tok(TokenV::NotEqual, i + 2)
        } else {
            Scan::Fail(LexFailure::Unrecognized, i + 1)
        }
    } else if c == '>' {
        if next_is('=') {
            Scan::Tok(TokenV::GreaterOrEqual, i + 2)
        } else {
            Scan::Tok(TokenV::GreaterThan, i + 1)
        }
    } else if c == '<' {
        if next_is('=') {
            Scan::Tok(TokenV::LessOrEqual, i + 2)
        } else {
            Scan::Tok(TokenV::LessThan, i + 1)
        }
    } else if c == '*' {
        Scan::Tok(TokenV::Star, i + 1)
    } else if c == ',' {
        Scan::Tok(TokenV::Comma, i + 1)
    } else if c == '.' {
        Scan::Tok(TokenV::Dot, i + 1)
    } else if c == '#' {
        Scan::Tok(TokenV::Hash, i + 1)
    } else if c == '=' {
        Scan::Tok(TokenV::Equal, i + 1)
    } else if c == '(' {
        Scan::Tok(TokenV::LeftParen, i + 1)
    } else if c == ')' {
        Scan::Tok(TokenV::RightParen, i + 1)
    } else if c == '[' {
        Scan::Tok(TokenV::LeftBracket, i + 1)
    } else if c == ']' {
        Scan::Tok(TokenV::RightBracket, i + 1)
    } else {
        Scan::Fail(LexFailure::Unrecognized, i + 1)
    }
}

/// The tokens of `s` from position `i` on, closed by `Eof`, or the first
/// lexical error as (kind, start, end).
pub open spec fn lex_from(s: Seq<char>, i: int) -> Result<Seq<TokenV>, (LexFailure, int, int)>
    decreases s.len() - i,
{
    let j = ws_end(s, i);
    if i < 0 || j < i || j >= s.len() {
        Ok(seq![TokenV::Eof])
    } else {
        match scan_token(s, j) {
            Scan::Tok(t, k) => if j < k <= s.len() {
                match lex_from(s, k) {
                    Ok(rest) => Ok(seq![t] + rest),
                    Err(e) => Err(e),
                }
            } else {
                Err((LexFailure::Unrecognized, j, k))
            },
            Scan::Fail(f, k) => Err((f, j, k)),
        }
    }
}

/// The tokens of a whole input.
pub open spec fn lex(s: Seq<char>) -> Result<Seq<TokenV>, (LexFailure, int, int)> {
    lex_from(s, 0)
}

fn skip_ws(s: &Vec<char>, i: usize) -> (j: usize)
    requires
        i <= s@.len(),
    ensures
        j == ws_end(s@, i as int),
        i <= j <= s@.len(),
        j < s@.len() ==> !is_ws(s@[j as int]),
{
    let mut j = i;
    while j < s.len() && (s[j] == ' ' || s[j] == '\t' || s[j] == '\n' || s[j] == '\x0C' || s[j]
        == '\r')
        invariant
            i <= j <= s@.len(),
            ws_end(s@, i as int) == ws_end(s@, j as int),
        decreases s@.len() - j,
    {
        j = j + 1;
    }
    j
}

fn skip_ident(s: &Vec<char>, i: usize) -> (j: usize)
    requires
        i <= s@.len(),
    ensures
        j == ident_end(s@, i as int),
        i <= j <= s@.len(),
{
    let mut j = i;
    while j < s.len() && (('a' <= s[j] && s[j] <= 'z') || ('A' <= s[j] && s[j] <= 'Z') || ('0'
        <= s[j] && s[j] <= '9') || s[j] == '_' || s[j] == '-')
        invariant
            i <= j <= s@.len(),
            ident_end(s@, i as int) == ident_end(s@, j as int),
        decreases s@.len() - j,
    {
        j = j + 1;
    }
    j
}

fn skip_digits(s: &Vec<char>, i: usize) -> (j: usize)
    requires
        i <= s@.len(),
    ensures
        j == digits_end(s@, i as int),
        i <= j <= s@.len(),
{
    let mut j = i;
    while j < s.len() && '0' <= s[j] && s[j] <= '9'
        invariant
            i <= j <= s@.len(),
            digits_end(s@, i as int) == digits_end(s@, j as int),
        decreases s@.len() - j,
    {
        j = j + 1;
    }
    j
}

/// The value of the digits `s[a..b]`, or `None` when it exceeds `limit`.
fn digits_to_u64(s: &Vec<char>, a: usize, b: usize, limit: u64) -> (r: Option<u64>)
    requires
        a <= b <= s@.len(),
        forall|k: int| a <= k < b ==> is_digit(#[trigger] s@[k]),
    ensures
        match r {
            Some(v) => v == digits_value(s@.subrange(a as int, b as int)) && v <= limit,
            None => digits_value(s@.subrange(a as int, b as int)) > limit,
        },
{
    let mut v: u64 = 0;
    let mut k = a;
    while k < b
        invariant
            a <= k <= b <= s@.len(),
            forall|x: int| a <= x < b ==> is_digit(#[trigger] s@[x]),
            v == digits_value(s@.subrange(a as int, k as int)),
            v <= limit,
        decreases b - k,
    {
        let d = (s[k] as u32 - '0' as u32) as u64;
        assert(is_digit(s@[k as int]));
        assert(s@.subrange(a as int, k + 1).drop_last() =~= s@.subrange(a as int, k as int));
        let nv: u128 = v as u128 * 10 + d as u128;
        if nv > limit as u128 {
            proof {
                lemma_digits_value_prefix(s@.subrange(a as int, b as int), (k + 1 - a) as int);
                assert(s@.subrange(a as int, b as int).subrange(0, (k + 1 - a) as int)
                    =~= s@.subrange(a as int, k + 1));
            }
            return None;
        }
        v = nv as u64;
        k = k + 1;
    }
    Some(v)
}

/// A run of digits is worth at least any of its prefixes.
proof fn lemma_digits_value_prefix(d: Seq<char>, n: int)
    requires
        0 <= n <= d.len(),
        forall|k: int| 0 <= k < d.len() ==> is_digit(#[trigger] d[k]),
    ensures
        digits_value(d) >= digits_value(d.subrange(0, n)),
    decreases d.len() - n,
{
    if n < d.len() {
        lemma_digits_value_prefix(d, n + 1);
        assert(d.subrange(0, n + 1).drop_last() =~= d.subrange(0, n));
        assert(digits_value(d.subrange(0, n + 1)) >= digits_value(d.subrange(0, n)));
    } else {
        assert(d.subrange(0, n) =~= d);
    }
}

proof fn lemma_digits_run(s: Seq<char>, i: int)
    requires
        0 <= i <= s.len(),
    ensures
        i <= digits_end(s, i) <= s.len(),
        forall|k: int| i <= k < digits_end(s, i) ==> is_digit(#[trigger] s[k]),
    decreases s.len() - i,
{
    if i < s.len() && is_digit(s[i]) {
        lemma_digits_run(s, i + 1);
    }
}

/// Resolves the escapes of `s[a..b]`.
fn unescape_range(s: &Vec<char>, a: usize, b: usize) -> (r: Vec<char>)
    requires
        a <= b <= s@.len(),
    ensures
        r@ == unescape(s@.subrange(a as int, b as int)),
{
    let mut out: Vec<char> = Vec::new();
    let mut i = a;
    while i < b
        invariant
            a <= i <= b <= s@.len(),
            out@ + unescape(s@.subrange(i as int, b as int)) == unescape(
                s@.subrange(a as int, b as int),
            ),
        decreases b - i,
    {
        let ghost rest = s@.subrange(i as int, b as int);
        let c = s[i];
        if c == '\\' {
            if i + 1 == b {
                out.push('\\');
                i = i + 1;
                assert(out@ =~= out@ + unescape(s@.subrange(i as int, b as int)));
            } else {
                let e = s[i + 1];
                assert(rest[1] == e);
                assert(rest.subrange(2, rest.len() as int) =~= s@.subrange(i + 2, b as int));
                let ghost before = out@;
                if e == '\\' {
                    out.push('\\');
                } else if e == 'n' {
                    out.push('\n');
                } else if e == 't' {
                    out.push('\t');
                } else if e == 'r' {
                    out.push('\r');
                } else if e == '\'' {
                    out.push('\'');
                } else if e == '"' {
                    out.push('"');
                } else if e == '0' {
                    out.push('\0');
                } else {
                    out.push('\\');
                    out.push(e);
                }
                assert(out@ =~= before + escape_of(e));
                i = i + 2;
                assert(before + unescape(rest) =~= out@ + unescape(s@.subrange(i as int, b as int)));
            }
        } else {
            assert(rest.subrange(1, rest.len() as int) =~= s@.subrange(i + 1, b as int));
            let ghost before = out@;
            out.push(c);
            i = i + 1;
            assert(before + unescape(rest) =~= out@ + unescape(s@.subrange(i as int, b as int)));
        }
    }
    assert(unescape(s@.subrange(b as int, b as int)) =~= Seq::<char>::empty());
    assert(out@ + Seq::<char>::empty() =~= out@);
    out
}

/// Resolves the escapes `\\ \n \t \r \' \" \0` of a string literal's content;
/// a backslash before any other character stays, and a trailing one too.
pub fn unescape_string(s: &str) -> (r: String)
    ensures
        r@ == unescape(s@),
{
    let v = chars_of(s);
    let out = unescape_range(&v, 0, v.len());
    assert(v@.subrange(0, v@.len() as int) =~= v@);
    string_from_chars(out.as_slice())
}

fn keyword_token(w: &Vec<char>, start: usize, end: usize) -> (r: Option<Token>)
    requires
        start <= end <= w@.len(),
    ensures
        match r {
            Some(t) => keyword_of(w@.subrange(start as int, end as int)) == Some(t@),
            None => keyword_of(w@.subrange(start as int, end as int)).is_none(),
        },
{
    if slice_eq_ci(w, start, end, "create") { Some(Token::Create) } else
    if slice_eq_ci(w, start, end, "select") { Some(Token::Select) } else
    if slice_eq_ci(w, start, end, "update") { Some(Token::Update) } else
    if slice_eq_ci(w, start, end, "delete") { Some(Token::Delete) } else
    if slice_eq_ci(w, start, end, "assign") { Some(Token::Assign) } else
    if slice_eq_ci(w, start, end, "close") { Some(Token::Close) } else
    if slice_eq_ci(w, start, end, "reopen") { Some(Token::Reopen) } else
    if slice_eq_ci(w, start, end, "comment") { Some(Token::Comment) } else
    if slice_eq_ci(w, start, end, "from") { Some(Token::From) } else
    if slice_eq_ci(w, start, end, "where") { Some(Token::Where) } else
    if slice_eq_ci(w, start, end, "and") { Some(Token::And) } else
    if slice_eq_ci(w, start, end, "or") { Some(Token::Or) } else
    if slice_eq_ci(w, start, end, "not") { Some(Token::Not) } else
    if slice_eq_ci(w, start, end, "in") { Some(Token::In) } else
    if slice_eq_ci(w, start, end, "of") { Some(Token::Of) } else
    if slice_eq_ci(w, start, end, "is") { Some(Token::Is) } else
    if slice_eq_ci(w, start, end, "null") { Some(Token::Null) } else
    if slice_eq_ci(w, start, end, "set") { Some(Token::SetKw) } else
    if slice_eq_ci(w, start, end, "to") { Some(Token::To) } else
    if slice_eq_ci(w, start, end, "on") { Some(Token::On) } else
    if slice_eq_ci(w, start, end, "with") { Some(Token::With) } else
    if slice_eq_ci(w, start, end, "order") { Some(Token::Order) } else
    if slice_eq_ci(w, start, end, "by") { Some(Token::By) } else
    if slice_eq_ci(w, start, end, "limit") { Some(Token::Limit) } else
    if slice_eq_ci(w, start, end, "offset") { Some(Token::Offset) } else
    if slice_eq_ci(w, start, end, "asc") { Some(Token::Asc) } else
    if slice_eq_ci(w, start, end, "desc") { Some(Token::Desc) } else
    if slice_eq_ci(w, start, end, "like") { Some(Token::Like) } else
    if slice_eq_ci(w, start, end, "user") { Some(Token::User) } else
    if slice_eq_ci(w, start, end, "project") { Some(Token::Project) } else
    if slice_eq_ci(w, start, end, "issue") { Some(Token::Issue) } else
    if slice_eq_ci(w, start, end, "issues") { Some(Token::Issues) } else
    if slice_eq_ci(w, start, end, "users") { Some(Token::Users) } else
    if slice_eq_ci(w, start, end, "projects") { Some(Token::Projects) } else
    if slice_eq_ci(w, start, end, "comments") { Some(Token::Comments) } else
    if slice_eq_ci(w, start, end, "email") { Some(Token::Email) } else
    if slice_eq_ci(w, start, end, "name") { Some(Token::Name) } else
    if slice_eq_ci(w, start, end, "title") { Some(Token::Title) } else
    if slice_eq_ci(w, start, end, "kind") { Some(Token::Kind) } else
    if slice_eq_ci(w, start, end, "description") { Some(Token::Description) } else
    if slice_eq_ci(w, start, end, "priority") { Some(Token::Priority) } else
    if slice_eq_ci(w, start, end, "assignee") { Some(Token::Assignee) } else
    if slice_eq_ci(w, start, end, "owner") { Some(Token::Owner) } else
    if slice_eq_ci(w, start, end, "duplicate") { Some(Token::Duplicate) } else
    if slice_eq_ci(w, start, end, "wontfix") { Some(Token::WontFix) } else
    if slice_eq_ci(w, start, end, "done") { Some(Token::Done) } else
    if slice_eq_ci(w, start, end, "epic") { Some(Token::Epic) } else
    if slice_eq_ci(w, start, end, "improvement") { Some(Token::Improvement) } else
    if slice_eq_ci(w, start, end, "bug") { Some(Token::Bug) } else
    if slice_eq_ci(w, start, end, "task") { Some(Token::Task) } else
    if slice_eq_ci(w, start, end, "critical") { Some(Token::Critical) } else
    if slice_eq_ci(w, start, end, "high") { Some(Token::High) } else
    if slice_eq_ci(w, start, end, "medium") { Some(Token::Medium) } else
    if slice_eq_ci(w, start, end, "low") { Some(Token::Low) } else
    if slice_eq_ci(w, start, end, "true") { Some(Token::True) } else
    if slice_eq_ci(w, start, end, "false") { Some(Token::False) } else
    { None }
}

fn quoted_close(s: &Vec<char>, q: char, i: usize) -> (r: Option<usize>)
    requires
        i <= s@.len(),
    ensures
        match r {
            Some(k) => quoted_end(s@, q, i as int) == Some(k as int) && i <= k < s@.len(),
            None => quoted_end(s@, q, i as int).is_none(),
        },
{
    let mut k = i;
    while k < s.len()
        invariant
            i <= k <= s@.len(),
            quoted_end(s@, q, i as int) == quoted_end(s@, q, k as int),
        decreases s@.len() - k,
    {
        if s[k] == q {
            return Some(k);
        } else if s[k] == '\\' {
            if k + 1 < s.len() && s[k + 1] != '\n' {
                k = k + 2;
            } else {
                return None;
            }
        } else {
            k = k + 1;
        }
    }
    None
}

/// The characters `s[a..b]`.
pub fn copy_range(s: &Vec<char>, a: usize, b: usize) -> (r: Vec<char>)
    requires
        a <= b <= s@.len(),
    ensures
        r@ == s@.subrange(a as int, b as int),
{
    let mut r: Vec<char> = Vec::new();
    let mut k = a;
    while k < b
        invariant
            a <= k <= b <= s@.len(),
            r@ == s@.subrange(a as int, k as int),
        decreases b - k,
    {
        r.push(s[k]);
        k = k + 1;
    }
    r
}

fn lex_number(s: &Vec<char>, i: usize, d: usize, negative: bool) -> (r: Result<(Token, usize), (LexFailure, usize)>)
    requires
        i <= d < s@.len(),
        is_digit(s@[d as int]),
    ensures
        match r {
            Ok((t, k)) => scan_number(s@, i as int, d as int, negative) == Scan::Tok(t@, k as int) && d < k <= s@.len(),
            Err((f, k)) => scan_number(s@, i as int, d as int, negative) == Scan::Fail(f, k as int) && d < k <= s@.len(),
        },
{
    let j = skip_digits(s, d);
    proof {
        lemma_digits_run(s@, d as int);
        lemma_digits_run(s@, d + 1);
        assert(digits_end(s@, d as int) == digits_end(s@, d + 1));
    }
    if s.len() - j > 1 && s[j] == '.' && '0' <= s[j + 1] && s[j + 1] <= '9' {
        let k = skip_digits(s, j + 1);
        proof { lemma_digits_run(s@, j + 1); }
        let v = string_from_chars(copy_range(s, i, k).as_slice());
        return Ok((Token::Float(v), k));
    }
    if negative {
        match digits_to_u64(s, d, j, 0x8000_0000_0000_0000u64) {
            Some(v) => {
                let n: i64 = if v == 0x8000_0000_0000_0000u64 { i64::MIN } else { -(v as i64) };
                Ok((Token::Integer(n), j))
            },
            None => Err((LexFailure::NumberTooLarge, j)),
        }
    } else {
        match digits_to_u64(s, d, j, u64::MAX) {
            Some(v) => Ok((Token::UnsignedInteger(v), j)),
            None => Err((LexFailure::NumberTooLarge, j)),
        }
    }
}

proof fn lemma_ident_run(s: Seq<char>, i: int)
    requires
        0 <= i <= s.len(),
    ensures
        i <= ident_end(s, i) <= s.len(),
    decreases s.len() - i,
{
    if i < s.len() && is_ident_char(s[i]) {
        lemma_ident_run(s, i + 1);
    }
}

/// Scans the token that starts at `i`.
fn scan_at(s: &Vec<char>, i: usize) -> (r: Result<(Token, usize), (LexFailure, usize)>)
    requires
        i < s@.len(),
        !is_ws(s@[i as int]),
    ensures
        match r {
            Ok((t, k)) => scan_token(s@, i as int) == Scan::Tok(t@, k as int) && i < k <= s@.len(),
            Err((f, k)) => scan_token(s@, i as int) == Scan::Fail(f, k as int) && i < k <= s@.len(),
        },
{
    let c = s[i];
    let n = s.len();
    if ('a' <= c && c <= 'z') || ('A' <= c && c <= 'Z') || c == '_' {
        let j = skip_ident(s, i + 1);
        proof { lemma_ident_run(s@, i + 1); }
        match keyword_token(s, i, j) {
            Some(t) => Ok((t, j)),
            None => {
                let w = string_from_chars(copy_range(s, i, j).as_slice());
                Ok((Token::Identifier(w), j))
            },
        }
    } else if '0' <= c && c <= '9' {
        lex_number(s, i, i, false)
    } else if c == '-' {
        if n - i > 1 && '0' <= s[i + 1] && s[i + 1] <= '9' {
            lex_number(s, i, i + 1, true)
        } else {
            Err((LexFailure::Unrecognized, i + 1))
        }
    } else if c == '\'' || c == '"' {
        match quoted_close(s, c, i + 1) {
            Some(k) => {
                let content = unescape_range(s, i + 1, k);
                Ok((Token::String(string_from_chars(content.as_slice())), k + 1))
            },
            None => Err((LexFailure::Unterminated, n)),
        }
    } else if c == '!' {
        if n - i > 1 && s[i + 1] == '=' {
            Ok((Token::NotEqual, i + 2))
        } else {
            Err((LexFailure::Unrecognized, i + 1))
        }
    } else if c == '>' {
        if n - i > 1 && s[i + 1] == '=' {
            Ok((Token::GreaterOrEqual, i + 2))
        } else {
            Ok((Token::GreaterThan, i + 1))
        }
    } else if c == '<' {
        if n - i > 1 && s[i + 1] == '=' {
            Ok((Token::LessOrEqual, i + 2))
        } else {
            Ok((Token::LessThan, i + 1))
        }
    } else if c == '*' {
        Ok((Token::Star, i + 1))
    } else if c == ',' {
        Ok((Token::Comma, i + 1))
    } else if c == '.' {
        Ok((Token::Dot, i + 1))
    } else if c == '#' {
        Ok((Token::Hash, i + 1))
    } else if c == '=' {
        Ok((Token::Equal, i + 1))
    } else if c == '(' {
        Ok((Token::LeftParen, i + 1))
    } else if c == ')' {
        Ok((Token::RightParen, i + 1))
    } else if c == '[' {
        Ok((Token::LeftBracket, i + 1))
    } else if c == ']' {
        Ok((Token::RightBracket, i + 1))
    } else {
        Err((LexFailure::Unrecognized, i + 1))
    }
}

/// Splits a character sequence into tokens closed by `Eof`.
pub fn lex_chars(s: &Vec<char>) -> (r: Result<Vec<Token>, LexError>)
    ensures
        match r {
            Ok(v) => lex(s@) == Ok::<Seq<TokenV>, (LexFailure, int, int)>(view_tokens(v@)),
            Err(e) => lex(s@) == Err::<Seq<TokenV>, (LexFailure, int, int)>(
                (e.kind, e.start as int, e.end as int),
            ) && e.start < e.end <= s@.len(),
        },
{
    let mut out: Vec<Token> = Vec::new();
    let mut i: usize = 0;
    while i < s.len()
        invariant
            i <= s@.len(),
            lex(s@) == match lex_from(s@, i as int) {
                Ok(rest) => Ok(view_tokens(out@) + rest),
                Err(e) => Err(e),
            },
        decreases s@.len() - i,
    {
        let j = skip_ws(s, i);
        if j == s.len() {
            assert(lex_from(s@, i as int) == Ok::<Seq<TokenV>, (LexFailure, int, int)>(seq![TokenV::Eof]));
            let ghost before = out@;
            out.push(Token::Eof);
            assert(view_tokens(out@) =~= view_tokens(before) + seq![TokenV::Eof]);
            return Ok(out);
        }
        let ghost before = out@;
        match scan_at(s, j) {
            Ok((t, k)) => {
                out.push(t);
                assert(view_tokens(out@) =~= view_tokens(before) + seq![t@]);
                proof {
                    match lex_from(s@, k as int) {
                        Ok(rest) => {
                            assert(view_tokens(before) + (seq![t@] + rest) =~= view_tokens(out@) + rest);
                        },
                        Err(_) => {},
                    }
                }
                i = k;
            },
            Err((f, k)) => {
                return Err(LexError { kind: f, start: j, end: k });
            },
        }
    }
    assert(ws_end(s@, i as int) == i);
    assert(lex_from(s@, i as int) == Ok::<Seq<TokenV>, (LexFailure, int, int)>(seq![TokenV::Eof]));
    let ghost before = out@;
    out.push(Token::Eof);
    assert(view_tokens(out@) =~= view_tokens(before) + seq![TokenV::Eof]);
    Ok(out)
}

/// Splits a query into tokens closed by `Eof`; on a lexical error, the
/// characters that could not be read.
pub fn tokenize(input: &str) -> (r: Result<Vec<Token>, String>)
    ensures
        match r {
            Ok(v) => lex(input@) == Ok::<Seq<TokenV>, (LexFailure, int, int)>(view_tokens(v@)),
            Err(slice) => exists|f: LexFailure, a: int, b: int|
                lex(input@) == Err::<Seq<TokenV>, (LexFailure, int, int)>((f, a, b))
                && slice@ == input@.subrange(a, b),
        },
{
    let s = chars_of(input);
    match lex_chars(&s) {
        Ok(v) => Ok(v),
        Err(e) => {
            let slice = string_from_chars(copy_range(&s, e.start, e.end).as_slice());
            Err(slice)
        },
    }
}

impl Token {
    /// The field name that this token stands for where a field name is
    /// expected: an identifier as written, or one of the keywords
    /// EMAIL NAME TITLE DESCRIPTION PRIORITY ASSIGNEE OWNER USER PROJECT
    /// ISSUE COMMENT in lower case.
    pub fn to_field_name(&self) -> (r: Option<String>)
        ensures
            r matches Some(n) ==> Some(n@) == field_name_of(self@),
            r is None ==> field_name_of(self@) is None,
    {
        match self {
            Token::Identifier(s) => Some(s.clone()),
            Token::Email => Some(copy_str("email")),
            Token::Name => Some(copy_str("name")),
            Token::Title => Some(copy_str("title")),
            Token::Description => Some(copy_str("description")),
            Token::Priority => Some(copy_str("priority")),
            Token::Assignee => Some(copy_str("assignee")),
            Token::Owner => Some(copy_str("owner")),
            Token::User => Some(copy_str("user")),
            Token::Project => Some(copy_str("project")),
            Token::Issue => Some(copy_str("issue")),
            Token::Comment => Some(copy_str("comment")),
            _ => None,
        }
    }

    /// Whether the token is a keyword (the words of statements and
    /// clauses, entity names, field keywords, priorities and booleans).
    pub fn is_keyword(&self) -> (r: bool)
        ensures
            r == is_keyword_token(self@),
    {
        match self {
            Token::Create | Token::Select | Token::Update | Token::Delete | Token::Assign
            | Token::Close | Token::Reopen | Token::Comment | Token::From | Token::Where
            | Token::And | Token::Or | Token::Not | Token::In | Token::Is | Token::Null
            | Token::SetKw | Token::To | Token::On | Token::With | Token::Order | Token::By
            | Token::Limit | Token::Offset | Token::Asc | Token::Desc | Token::Like
            | Token::User | Token::Project | Token::Issue | Token::Issues | Token::Users
            | Token::Projects | Token::Comments | Token::Email | Token::Name | Token::Title
            | Token::Description | Token::Priority | Token::Assignee | Token::Owner
            | Token::Critical | Token::High | Token::Medium | Token::Low | Token::True
            | Token::False => true,
            _ => false,
        }
    }

    /// Whether the token may name a field: a keyword or an identifier.
    pub fn can_be_field_name(&self) -> (r: bool)
        ensures
            r == (is_keyword_token(self@) || self@ is Identifier),
    {
        self.is_keyword() || matches!(self, Token::Identifier(_))
    }
}

pub open spec fn is_keyword_token(t: TokenV) -> bool {
    match t {
        TokenV::Create | TokenV::Select | TokenV::Update | TokenV::Delete | TokenV::Assign
        | TokenV::Close | TokenV::Reopen | TokenV::Comment | TokenV::From | TokenV::Where
        | TokenV::And | TokenV::Or | TokenV::Not | TokenV::In | TokenV::Is | TokenV::Null
        | TokenV::SetKw | TokenV::To | TokenV::On | TokenV::With | TokenV::Order | TokenV::By
        | TokenV::Limit | TokenV::Offset | TokenV::Asc | TokenV::Desc | TokenV::Like
        | TokenV::User | TokenV::Project | TokenV::Issue | TokenV::Issues | TokenV::Users
        | TokenV::Projects | TokenV::Comments | TokenV::Email | TokenV::Name | TokenV::Title
        | TokenV::Description | TokenV::Priority | TokenV::Assignee | TokenV::Owner
        | TokenV::Critical | TokenV::High | TokenV::Medium | TokenV::Low | TokenV::True
        | TokenV::False => true,
        _ => false,
    }
}

/// The field name that a token stands for, if any.
pub open spec fn field_name_of(t: TokenV) -> Option<Seq<char>> {
    match t {
        TokenV::Identifier(s) => Some(s),
        TokenV::Email => Some("email"@),
        TokenV::Name => Some("name"@),
        TokenV::Title => Some("title"@),
        TokenV::Description => Some("description"@),
        TokenV::Priority => Some("priority"@),
        TokenV::Assignee => Some("assignee"@),
        TokenV::Owner => Some("owner"@),
        TokenV::User => Some("user"@),
        TokenV::Project => Some("project"@),
        TokenV::Issue => Some("issue"@),
        TokenV::Comment => Some("comment"@),
        _ => None,
    }
}

} // verus!
