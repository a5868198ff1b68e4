use issuecraft::{tokenize, unescape_string, Token};

fn s(x: &str) -> String {
    x.to_string()
}

#[test]
fn test_tokenize_keywords() {
    let tokens = tokenize("CREATE SELECT UPDATE DELETE");
    assert_eq!(
        tokens,
        Ok(vec![Token::Create, Token::Select, Token::Update, Token::Delete, Token::Eof])
    );
}

#[test]
fn test_tokenize_case_insensitive() {
    let tokens = tokenize("CrEaTe SeLeCt UpDaTe");
    assert_eq!(tokens, Ok(vec![Token::Create, Token::Select, Token::Update, Token::Eof]));
}

#[test]
fn test_tokenize_string_single_quotes() {
    let tokens = tokenize("'hello world'");
    assert_eq!(tokens, Ok(vec![Token::String(s("hello world")), Token::Eof]));
}

#[test]
fn test_tokenize_string_double_quotes() {
    let tokens = tokenize(r#""hello world""#);
    assert_eq!(tokens, Ok(vec![Token::String(s("hello world")), Token::Eof]));
}

#[test]
fn test_tokenize_escaped_string() {
    let tokens = tokenize(r"'hello\nworld\t!'");
    assert_eq!(tokens, Ok(vec![Token::String(s("hello\nworld\t!")), Token::Eof]));
}

#[test]
fn test_tokenize_escaped_quotes() {
    let tokens = tokenize(r#"'She said \'hello\''"#).unwrap();
    assert_eq!(tokens, vec![Token::String(s("She said 'hello'")), Token::Eof]);
}

#[test]
fn test_tokenize_number() {
    let tokens = tokenize("123 -456").unwrap();
    assert_eq!(tokens, vec![Token::UnsignedInteger(123), Token::Integer(-456), Token::Eof]);
}

#[test]
fn test_tokenize_float() {
    let tokens = tokenize("3.14 -0.5").unwrap();
    assert_eq!(tokens, vec![Token::Float(s("3.14")), Token::Float(s("-0.5")), Token::Eof]);
}

#[test]
fn test_tokenize_operators() {
    let tokens = tokenize("= != > < >= <=").unwrap();
    assert_eq!(
        tokens,
        vec![
            Token::Equal,
            Token::NotEqual,
            Token::GreaterThan,
            Token::LessThan,
            Token::GreaterOrEqual,
            Token::LessOrEqual,
            Token::Eof
        ]
    );
}

#[test]
fn test_tokenize_punctuation() {
    let tokens = tokenize("* , . # ( ) [ ]").unwrap();
    assert_eq!(
        tokens,
        vec![
            Token::Star,
            Token::Comma,
            Token::Dot,
            Token::Hash,
            Token::LeftParen,
            Token::RightParen,
            Token::LeftBracket,
            Token::RightBracket,
            Token::Eof
        ]
    );
}

#[test]
fn test_tokenize_identifier() {
    let tokens = tokenize("my_var my-project user123").unwrap();
    assert_eq!(
        tokens,
        vec![
            Token::Identifier(s("my_var")),
            Token::Identifier(s("my-project")),
            Token::Identifier(s("user123")),
            Token::Eof
        ]
    );
}

#[test]
fn test_tokenize_priority_levels() {
    let tokens = tokenize("critical high medium low").unwrap();
    assert_eq!(
        tokens,
        vec![Token::Critical, Token::High, Token::Medium, Token::Low, Token::Eof]
    );
}

#[test]
fn test_tokenize_boolean() {
    let tokens = tokenize("true false TRUE FALSE").unwrap();
    assert_eq!(
        tokens,
        vec![Token::True, Token::False, Token::True, Token::False, Token::Eof]
    );
}

#[test]
fn test_tokenize_entity_types() {
    let tokens = tokenize("users projects issues comments").unwrap();
    assert_eq!(
        tokens,
        vec![Token::Users, Token::Projects, Token::Issues, Token::Comments, Token::Eof]
    );
}

#[test]
fn test_tokenize_complex_query() {
    let tokens = tokenize("SELECT * FROM issues WHERE status = 'open'").unwrap();
    assert_eq!(
        tokens,
        vec![
            Token::Select,
            Token::Star,
            Token::From,
            Token::Issues,
            Token::Where,
            Token::Identifier(s("status")),
            Token::Equal,
            Token::String(s("open")),
            Token::Eof
        ]
    );
}

#[test]
fn test_tokenize_with_newlines() {
    let tokens = tokenize("SELECT *\nFROM issues\nWHERE status = 'open'").unwrap();
    assert_eq!(
        tokens,
        vec![
            Token::Select,
            Token::Star,
            Token::From,
            Token::Issues,
            Token::Where,
            Token::Identifier(s("status")),
            Token::Equal,
            Token::String(s("open")),
            Token::Eof
        ]
    );
}

#[test]
fn test_tokenize_field_names() {
    let tokens = tokenize("email name title description priority").unwrap();
    assert_eq!(
        tokens,
        vec![
            Token::Email,
            Token::Name,
            Token::Title,
            Token::Description,
            Token::Priority,
            Token::Eof
        ]
    );
}

#[test]
fn test_token_to_field_name() {
    assert_eq!(Token::Email.to_field_name(), Some("email".to_string()));
    assert_eq!(Token::Name.to_field_name(), Some("name".to_string()));
    assert_eq!(Token::Project.to_field_name(), Some("project".to_string()));
    assert_eq!(
        Token::Identifier("custom".to_string()).to_field_name(),
        Some("custom".to_string())
    );
    assert_eq!(Token::Star.to_field_name(), None);
}

#[test]
fn test_is_keyword() {
    assert!(Token::Create.is_keyword());
    assert!(Token::Select.is_keyword());
    assert!(Token::Priority.is_keyword());
    assert!(!Token::Star.is_keyword());
    assert!(!Token::Identifier("test".to_string()).is_keyword());
}

#[test]
fn test_can_be_field_name() {
    assert!(Token::Email.can_be_field_name());
    assert!(Token::Priority.can_be_field_name());
    assert!(Token::Identifier("custom".to_string()).can_be_field_name());
    assert!(!Token::Star.can_be_field_name());
}

#[test]
fn test_unescape_all_sequences() {
    assert_eq!(unescape_string(r"hello\nworld"), "hello\nworld");
    assert_eq!(unescape_string(r"tab\there"), "tab\there");
    assert_eq!(unescape_string(r"back\\slash"), "back\\slash");
    assert_eq!(unescape_string(r"quote\'here"), "quote'here");
    assert_eq!(unescape_string(r#"quote\"here"#), "quote\"here");
    assert_eq!(unescape_string(r"null\0char"), "null\0char");
}

#[test]
fn test_empty_string() {
    let tokens = tokenize("''").unwrap();
    assert_eq!(tokens, vec![Token::String(s("")), Token::Eof]);
}

#[test]
fn test_string_with_spaces() {
    let tokens = tokenize("'hello   world'").unwrap();
    assert_eq!(tokens, vec![Token::String(s("hello   world")), Token::Eof]);
}

#[test]
fn test_hyphenated_identifier() {
    let tokens = tokenize("my-project-name").unwrap();
    assert_eq!(tokens, vec![Token::Identifier(s("my-project-name")), Token::Eof]);
}

#[test]
fn test_all_logical_operators() {
    let tokens = tokenize("AND OR NOT IN IS LIKE").unwrap();
    assert_eq!(
        tokens,
        vec![Token::And, Token::Or, Token::Not, Token::In, Token::Is, Token::Like, Token::Eof]
    );
}

#[test]
fn test_complete_create_statement() {
    let input = "CREATE USER alice WITH EMAIL 'alice@example.com'";
    let tokens = tokenize(input).unwrap();
    assert_eq!(
        tokens,
        vec![
            Token::Create,
            Token::User,
            Token::Identifier(s("alice")),
            Token::With,
            Token::Email,
            Token::String(s("alice@example.com")),
            Token::Eof
        ]
    );
}

#[test]
fn test_issue_id_format() {
    let tokens = tokenize("backend#123").unwrap();
    assert_eq!(
        tokens,
        vec![Token::Identifier(s("backend")), Token::Hash, Token::UnsignedInteger(123), Token::Eof]
    );
}

#[test]
fn unknown_escape_keeps_backslash() {
    assert_eq!(unescape_string(r"a\qb"), "a\\qb");
    assert_eq!(unescape_string("end\\"), "end\\");
}

#[test]
fn keyword_prefix_is_identifier() {
    let tokens = tokenize("index selected users1 in").unwrap();
    assert_eq!(
        tokens,
        vec![
            Token::Identifier(s("index")),
            Token::Identifier(s("selected")),
            Token::Identifier(s("users1")),
            Token::In,
            Token::Eof
        ]
    );
}

#[test]
fn number_then_dot_without_digits() {
    let tokens = tokenize("1. 2.5").unwrap();
    assert_eq!(
        tokens,
        vec![Token::UnsignedInteger(1), Token::Dot, Token::Float(s("2.5")), Token::Eof]
    );
}

#[test]
fn lexical_errors_report_the_slice() {
    assert_eq!(tokenize("a $ b"), Err("$".to_string()));
    assert_eq!(tokenize("'open"), Err("'open".to_string()));
    assert_eq!(tokenize("- 1"), Err("-".to_string()));
    assert_eq!(tokenize("99999999999999999999"), Err("99999999999999999999".to_string()));
}

#[test]
fn integer_extremes() {
    assert_eq!(
        tokenize("18446744073709551615 -9223372036854775808").unwrap(),
        vec![
            Token::UnsignedInteger(u64::MAX),
            Token::Integer(i64::MIN),
            Token::Eof
        ]
    );
    assert_eq!(tokenize("-9223372036854775809"), Err("-9223372036854775809".to_string()));
}
