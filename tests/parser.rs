use issuecraft::{
    parse_query, CloseReason, CloseStatement, CreateStatement, FilterExpression, IqlValue,
    IssueId, IssueKind, OrderDirection, ParseError, Parser, Priority, Statement, UpdateTarget,
    UserId,
};

#[test]
fn test_parse_create_user() {
    let query = "CREATE USER john_doe WITH EMAIL 'john@example.com' NAME 'John Doe'";
    let result = parse_query(query);
    assert!(result.is_ok());

    if let Ok(Statement::Create(CreateStatement::User { username, email, name })) = result {
        assert_eq!(username, "john_doe");
        assert_eq!(email, Some("john@example.com".to_string()));
        assert_eq!(name, Some("John Doe".to_string()));
    } else {
        panic!("Expected CreateStatement::User");
    }
}

#[test]
fn test_parse_create_project() {
    let query = "CREATE PROJECT my-project WITH NAME 'My Project' DESCRIPTION 'A test project'";
    let result = parse_query(query);
    assert!(result.is_ok());
}

#[test]
fn lib_test_parse_select_all() {
    let query = "SELECT * FROM issues";
    let result = parse_query(query);
    assert!(result.is_ok());
}

#[test]
fn test_parse_select_with_where() {
    let query = "SELECT * FROM issues WHERE status = 'open' AND priority = high";
    let result = parse_query(query);
    assert!(result.is_ok());
}

#[test]
fn test_parse_update() {
    let query = "UPDATE issue my-project#123 SET status = 'closed', priority = low";
    let result = parse_query(query);
    assert!(result.is_ok());
}

#[test]
fn test_parse_delete() {
    let query = "DELETE issue my-project#456";
    let result = parse_query(query);
    assert!(result.is_ok());
}

#[test]
fn lib_test_parse_assign() {
    let query = "ASSIGN issue my-project#789 TO alice";
    let result = parse_query(query);
    assert!(result.is_ok());
}

#[test]
fn lib_test_parse_close() {
    let query = "CLOSE issue my-project#101";
    let result = parse_query(query);
    assert!(result.is_ok());
}

#[test]
fn lib_test_parse_comment() {
    let query = "COMMENT ON issue my-project#202 WITH 'This is a comment'";
    let result = parse_query(query);
    assert!(result.is_ok());
}

#[test]
fn test_parse_complex_query() {
    let query = "SELECT title, status, assignee FROM issues WHERE project = 'backend' AND (priority = high OR status = 'critical') ORDER BY created_at DESC LIMIT 10";
    let result = parse_query(query);
    if let Err(ref e) = result {
        println!("Parse error: {:?}", e);
    }
    assert!(result.is_ok());
}

#[test]
fn test_parse_multiple_field_updates() {
    let query =
        "UPDATE issue my-project#100 SET status = 'closed', priority = medium, assignee = 'bob'";
    let result = parse_query(query);
    assert!(result.is_ok());
}

#[test]
fn test_parse_in_operator() {
    let query = "SELECT * FROM issues WHERE priority IN (critical, high)";
    let result = parse_query(query);
    assert!(result.is_ok());
}

#[test]
fn test_parse_is_null() {
    let query = "SELECT * FROM issues WHERE assignee IS NULL";
    let result = parse_query(query);
    assert!(result.is_ok());
}

#[test]
fn test_parse_is_not_null() {
    let query = "SELECT * FROM issues WHERE assignee IS NOT NULL";
    let result = parse_query(query);
    assert!(result.is_ok());
}

#[test]
fn test_parse_not_operator() {
    let query = "SELECT * FROM issues WHERE NOT status = 'closed'";
    let result = parse_query(query);
    assert!(result.is_ok());
}

#[test]
fn test_parse_like_operator() {
    let query = "SELECT * FROM issues WHERE title LIKE '%bug%'";
    let result = parse_query(query);
    assert!(result.is_ok());
}

#[test]
fn test_parse_order_asc() {
    let query = "SELECT * FROM issues ORDER BY created_at ASC";
    let result = parse_query(query);
    assert!(result.is_ok());
}

#[test]
fn test_parse_offset() {
    let query = "SELECT * FROM issues LIMIT 10 OFFSET 20";
    let result = parse_query(query);
    assert!(result.is_ok());
}

#[test]
fn test_parse_all_entity_types() {
    let queries = vec![
        "SELECT * FROM users",
        "SELECT * FROM projects",
        "SELECT * FROM issues",
        "SELECT * FROM comments",
    ];
    for query in queries {
        let result = parse_query(query);
        assert!(result.is_ok(), "Failed to parse: {}", query);
    }
}

#[test]
fn test_negative_numbers() {
    let query = "UPDATE issue test#100 SET count = -50";
    let result = parse_query(query);
    assert!(result.is_ok());
}

#[test]
fn test_float_values() {
    let query = "UPDATE issue test#100 SET score = 3.14159";
    let result = parse_query(query);
    assert!(result.is_ok());
}

#[test]
fn test_deeply_nested_filters() {
    let query = "SELECT * FROM issues WHERE ((a = 1 AND b = 2) OR (c = 3 AND d = 4)) AND e = 5";
    let result = parse_query(query);
    assert!(result.is_ok());
}

#[test]
fn test_not_with_parentheses() {
    let query = "SELECT * FROM issues WHERE NOT (status = 'closed' OR status = 'archived')";
    let result = parse_query(query);
    assert!(result.is_ok());
}

#[test]
fn test_in_with_priorities() {
    let query = "SELECT * FROM issues WHERE priority IN (critical, high, medium)";
    let result = parse_query(query);
    assert!(result.is_ok());
}

#[test]
fn test_in_with_strings() {
    let query = "SELECT * FROM issues WHERE status IN ('open', 'in-progress', 'review')";
    let result = parse_query(query);
    assert!(result.is_ok());
}

#[test]
fn test_comparison_operators() {
    let queries = vec![
        "SELECT * FROM issues WHERE count > 10",
        "SELECT * FROM issues WHERE count < 5",
        "SELECT * FROM issues WHERE count >= 10",
        "SELECT * FROM issues WHERE count <= 5",
        "SELECT * FROM issues WHERE status != 'closed'",
    ];
    for query in queries {
        let result = parse_query(query);
        assert!(result.is_ok(), "Failed: {}", query);
    }
}

#[test]
fn test_case_insensitive_keywords() {
    let queries = vec![
        "select * from issues",
        "SELECT * FROM ISSUES",
        "SeLeCt * FrOm IsSuEs",
        "create user alice",
        "CREATE USER ALICE",
    ];
    for query in queries {
        let result = parse_query(query);
        assert!(result.is_ok(), "Failed: {}", query);
    }
}

#[test]
fn test_hyphenated_identifiers() {
    let queries = vec![
        "CREATE USER my-user-name",
        "CREATE PROJECT my-cool-project",
        "SELECT * FROM issues WHERE project = 'my-backend-api'",
    ];
    for query in queries {
        let result = parse_query(query);
        assert!(result.is_ok(), "Failed: {}", query);
    }
}

#[test]
fn test_keywords_as_field_names() {
    let queries = vec![
        "SELECT project, user, issue FROM issues",
        "SELECT * FROM issues WHERE project = 'test'",
        "SELECT * FROM issues WHERE user = 'alice'",
        "UPDATE issue test#1 SET comment = 'test'",
    ];
    for query in queries {
        let result = parse_query(query);
        assert!(result.is_ok(), "Failed: {}", query);
    }
}

#[test]
fn test_all_delete_targets() {
    let queries = vec![
        "DELETE user alice",
        "DELETE project backend",
        "DELETE issue backend#456",
        "DELETE comment 789",
    ];
    for query in queries {
        let result = parse_query(query);
        assert!(result.is_ok(), "Failed: {}", query);
    }
}

#[test]
fn test_all_update_targets() {
    let queries = vec![
        "UPDATE user alice SET email = 'new@test.com'",
        "UPDATE project backend SET name = 'New Name'",
        "UPDATE issue backend#123 SET status = 'closed'",
        "UPDATE issue backend#456 SET priority = high",
        "UPDATE comment 789 SET content = 'updated'",
    ];
    for query in queries {
        let result = parse_query(query);
        assert!(result.is_ok(), "Failed: {}", query);
    }
}

#[test]
fn test_multiple_columns_select() {
    let query = "SELECT id, title, status, priority, assignee, created_at, updated_at FROM issues";
    let result = parse_query(query);
    assert!(result.is_ok());
    if let Ok(Statement::Select(select)) = result {
        assert_eq!(select.columns.len(), 7);
    }
}

#[test]
fn test_limit_and_offset_together() {
    let query = "SELECT * FROM issues LIMIT 50 OFFSET 100";
    let result = parse_query(query);
    assert!(result.is_ok());
    if let Ok(Statement::Select(select)) = result {
        assert_eq!(select.limit, Some(50));
        assert_eq!(select.offset, Some(100));
    }
}

#[test]
fn test_order_by_asc_explicit() {
    let query = "SELECT * FROM issues ORDER BY created_at ASC";
    let result = parse_query(query);
    assert!(result.is_ok());
    if let Ok(Statement::Select(select)) = result {
        assert!(select.order_by.is_some());
        let order = select.order_by.unwrap();
        assert_eq!(order.direction, OrderDirection::Asc);
    }
}

#[test]
fn test_boolean_values() {
    let queries = vec![
        "UPDATE issue backend#1 SET active = true",
        "UPDATE issue backend#1 SET archived = false",
        "SELECT * FROM issues WHERE active = TRUE",
        "SELECT * FROM issues WHERE archived = FALSE",
    ];
    for query in queries {
        let result = parse_query(query);
        assert!(result.is_ok(), "Failed: {}", query);
    }
}

#[test]
fn test_null_values() {
    let queries = vec![
        "UPDATE issue backend#1 SET assignee = null",
        "SELECT * FROM issues WHERE assignee = NULL",
    ];
    for query in queries {
        let result = parse_query(query);
        assert!(result.is_ok(), "Failed: {}", query);
    }
}

#[test]
fn test_comment_statement() {
    let query = "COMMENT ON ISSUE backend#123 WITH 'Quick comment'";
    let result = parse_query(query);
    assert!(result.is_ok());
}

#[test]
fn test_empty_string_value() {
    let query = "UPDATE issue backend#1 SET description = ''";
    let result = parse_query(query);
    assert!(result.is_ok());
}

#[test]
fn test_complex_real_world_query() {
    let query = r#"
            SELECT title, status, priority, assignee, created_at
            FROM issues
            WHERE (priority = critical OR priority = high)
              AND status IN ('open', 'in-progress')
              AND assignee IS NOT NULL
              AND project = 'backend'
            ORDER BY priority DESC
            LIMIT 25
            OFFSET 0
        "#;
    let result = parse_query(query);
    assert!(result.is_ok());
}

#[test]
fn test_minimal_create_user() {
    let query = "CREATE USER alice";
    let result = parse_query(query);
    assert!(result.is_ok());
    if let Ok(Statement::Create(CreateStatement::User { email, name, .. })) = result {
        assert!(email.is_none());
        assert!(name.is_none());
    }
}

#[test]
fn test_minimal_create_project() {
    let query = "CREATE PROJECT test";
    let result = parse_query(query);
    assert!(result.is_ok());
}

#[test]
fn test_select_from_all_entities() {
    for entity in &["users", "projects", "issues", "comments"] {
        let query = format!("SELECT * FROM {}", entity);
        let result = parse_query(&query);
        assert!(result.is_ok(), "Failed: {}", query);
    }
}

#[test]
fn test_issue_id_variations() {
    let queries = vec![
        "CLOSE issue a#1",
        "CLOSE issue my-project#123",
        "CLOSE issue backend_api#456",
    ];
    for query in queries {
        let result = parse_query(query);
        assert!(result.is_ok(), "Failed: {}", query);
    }
}

#[test]
fn test_all_comparison_ops_with_strings() {
    let query = "SELECT * FROM issues WHERE title LIKE '%bug%'";
    let result = parse_query(query);
    assert!(result.is_ok());
}

#[test]
fn test_single_column_select() {
    let query = "SELECT title FROM issues";
    let result = parse_query(query);
    assert!(result.is_ok());
    if let Ok(Statement::Select(select)) = result {
        assert_eq!(select.columns.len(), 1);
    }
}

#[test]
fn test_whitespace_variations() {
    let queries = vec![
        "SELECT * FROM issues",
        "SELECT  *  FROM  issues",
        "SELECT\t*\tFROM\tissues",
        "SELECT\n*\nFROM\nissues",
    ];
    for query in queries {
        let result = parse_query(query);
        assert!(result.is_ok(), "Failed: {}", query);
    }
}

#[test]
fn test_field_update_with_priority() {
    let query = "UPDATE issue backend#1 SET priority = critical, status = 'open'";
    let result = parse_query(query);
    assert!(result.is_ok());
}

#[test]
fn test_field_update_with_identifier() {
    let query = "UPDATE issue backend#1 SET assignee = alice, project = backend";
    let result = parse_query(query);
    assert!(result.is_ok());
}

#[test]
fn test_parse_create_user_simple() {
    let parser = Parser::new("CREATE USER alice");
    let result = parser.parse();
    assert!(result.is_ok());
}

#[test]
fn test_parse_create_user_with_details() {
    let parser = Parser::new("CREATE USER bob WITH EMAIL 'bob@test.com' NAME 'Bob Smith'");
    let result = parser.parse();
    assert!(result.is_ok());

    if let Ok(Statement::Create(CreateStatement::User { username, email, name })) = result {
        assert_eq!(username, "bob");
        assert_eq!(email, Some("bob@test.com".to_string()));
        assert_eq!(name, Some("Bob Smith".to_string()));
    }
}

#[test]
fn parser_test_parse_select_all() {
    let parser = Parser::new("SELECT * FROM issues");
    let result = parser.parse();
    assert!(result.is_ok());
}

#[test]
fn test_parse_select_columns() {
    let parser = Parser::new("SELECT title, status FROM issues");
    let result = parser.parse();
    assert!(result.is_ok());
}

#[test]
fn test_parse_select_with_filter() {
    let parser = Parser::new("SELECT * FROM issues WHERE status = 'open'");
    let result = parser.parse();
    assert!(result.is_ok());
}

#[test]
fn test_parse_select_complex_filter() {
    let parser = Parser::new("SELECT * FROM issues WHERE status = 'open' AND priority = high");
    let result = parser.parse();
    assert!(result.is_ok());
}

#[test]
fn test_parse_update_issue() {
    let parser = Parser::new("UPDATE issue backend#123 SET status = 'closed'");
    let result = parser.parse();
    assert!(result.is_ok());
}

#[test]
fn parser_test_parse_assign() {
    let parser = Parser::new("ASSIGN issue backend#456 TO alice");
    let result = parser.parse();
    assert!(result.is_ok());
}

#[test]
fn parser_test_parse_close() {
    let parser = Parser::new("CLOSE issue backend#789");
    let result = parser.parse();
    assert!(result.is_ok());
}

#[test]
fn parser_test_parse_comment() {
    let parser = Parser::new("COMMENT ON issue backend#101 WITH 'Great work!'");
    let result = parser.parse();
    assert!(result.is_ok());
}

#[test]
fn test_parse_issue_id_project() {
    let parser = Parser::new("CLOSE issue backend#42");
    let result = parser.parse();
    assert!(result.is_ok());

    if let Ok(Statement::Close(stmt)) = result {
        assert_eq!(stmt.issue_id, IssueId("backend#42".to_string()));
    }
}

#[test]
fn create_issue_with_kind_and_fields() {
    let result = parse_query(
        "CREATE ISSUE OF KIND BUG IN my-project WITH PRIORITY high TITLE 'Bug found' ASSIGNEE john_doe DESCRIPTION 'Something broke'",
    );
    assert_eq!(
        result,
        Ok(Statement::Create(CreateStatement::Issue {
            project: issuecraft::ProjectId("my-project".to_string()),
            kind: IssueKind::Bug,
            title: "Bug found".to_string(),
            description: Some("Something broke".to_string()),
            priority: Some(Priority::High),
            assignee: Some(UserId("john_doe".to_string())),
        }))
    );
}

#[test]
fn create_issue_needs_title_and_with() {
    assert!(matches!(
        parse_query("CREATE ISSUE OF KIND TASK IN p WITH DESCRIPTION 'x'"),
        Err(ParseError::MissingClause { .. })
    ));
    assert!(matches!(
        parse_query("CREATE ISSUE OF KIND TASK IN p"),
        Err(ParseError::MissingClause { .. })
    ));
    assert!(matches!(
        parse_query("CREATE ISSUE OF KIND URGENT IN p WITH TITLE 'x'"),
        Err(ParseError::InvalidIssueKind { .. })
    ));
    assert!(matches!(
        parse_query("CREATE ISSUE IN test WITH TITLE 'Test'"),
        Err(ParseError::UnexpectedToken { .. })
    ));
}

#[test]
fn close_reasons_parse() {
    assert_eq!(
        parse_query("CLOSE ISSUE p#1 WITH WONTFIX"),
        Ok(Statement::Close(CloseStatement {
            issue_id: IssueId("p#1".to_string()),
            reason: Some(CloseReason::WontFix),
        }))
    );
    assert!(matches!(
        parse_query("CLOSE issue backend#123 WITH 'Completed'"),
        Err(ParseError::InvalidCloseReason { .. })
    ));
}

#[test]
fn parse_errors_are_structured() {
    assert_eq!(parse_query(""), Err(ParseError::UnexpectedEof));
    assert!(matches!(parse_query("FROM x"), Err(ParseError::UnexpectedToken { .. })));
    assert!(matches!(parse_query("SELECT * FROM widgets"), Err(ParseError::InvalidEntityType { .. })));
    assert!(matches!(parse_query("CLOSE ISSUE backend 1"), Err(ParseError::InvalidIssueId { .. })));
    assert!(matches!(parse_query("SELECT * FROM issues WHERE title = 'x"), Err(ParseError::UnterminatedString { .. })));
    assert!(matches!(parse_query("SELECT * FROM issues LIMIT 99999999999999999999"), Err(ParseError::InvalidNumber { .. })));
    assert!(matches!(parse_query("SELECT * FROM issues WHERE a ~ 1"), Err(ParseError::InvalidSyntax { .. })));
    assert!(matches!(
        parse_query("CREATE PROJECT p WITH"),
        Err(ParseError::MissingClause { .. })
    ));
}

#[test]
fn or_binds_looser_than_and() {
    let result = parse_query("SELECT * FROM issues WHERE a = 1 OR b = 2 AND NOT c = 3").unwrap();
    let cmp = |f: &str, n: u64| FilterExpression::Comparison {
        field: f.to_string(),
        op: issuecraft::ComparisonOp::Equal,
        value: IqlValue::UnsignedInteger(n),
    };
    if let Statement::Select(s) = result {
        assert_eq!(
            s.filter,
            Some(FilterExpression::Or(
                Box::new(cmp("a", 1)),
                Box::new(FilterExpression::And(
                    Box::new(cmp("b", 2)),
                    Box::new(FilterExpression::Not(Box::new(cmp("c", 3))))
                ))
            ))
        );
    } else {
        panic!("expected a SELECT");
    }
}

#[test]
fn update_target_kind_and_id() {
    let result = parse_query("UPDATE comment Cabc SET content = 'x'").unwrap();
    if let Statement::Update(u) = result {
        assert_eq!(u.entity.kind(), "COMMENT");
        assert_eq!(u.entity.id(), "Cabc");
        assert!(matches!(u.entity, UpdateTarget::Comment(_)));
    } else {
        panic!("expected an UPDATE");
    }
}

#[test]
fn rendered_statement_parses_back() {
    let original = "SELECT title, priority FROM issues WHERE (priority = HIGH OR priority = CRITICAL) AND NOT title LIKE 'wip%' ORDER BY title DESC LIMIT 5 OFFSET 1";
    let first = parse_query(original).unwrap();
    let rendered = "select TITLE, PRIORITY from ISSUES where ((priority = high) or (priority = critical)) and (not (title like \"wip%\")) order by title desc limit 5 offset 1";
    assert_eq!(parse_query(rendered).unwrap(), first);
}

#[test]
fn priorities_in_any_case_with_kind() {
    let queries = vec![
        "CREATE ISSUE OF KIND TASK IN test WITH TITLE 'Test' PRIORITY critical",
        "CREATE ISSUE OF KIND TASK IN test WITH TITLE 'Test' PRIORITY high",
        "CREATE ISSUE OF KIND TASK IN test WITH TITLE 'Test' PRIORITY medium",
        "CREATE ISSUE OF KIND TASK IN test WITH TITLE 'Test' PRIORITY low",
        "CREATE ISSUE OF KIND TASK IN test WITH TITLE 'T' PRIORITY CRITICAL",
        "CREATE ISSUE OF KIND TASK IN test WITH TITLE 'T' PRIORITY Critical",
    ];
    for query in queries {
        let result = parse_query(query);
        assert!(result.is_ok(), "Failed to parse: {}", query);
    }
}

#[test]
fn workflow_statements_parse() {
    let queries = vec![
        "CREATE USER alice WITH EMAIL 'alice@test.com' NAME 'Alice'",
        "CREATE PROJECT backend WITH NAME 'Backend' OWNER alice",
        "CREATE ISSUE OF KIND BUG IN backend WITH TITLE 'Bug fix' PRIORITY high ASSIGNEE alice",
        "SELECT * FROM issues WHERE assignee = 'alice'",
        "ASSIGN issue backend#1 TO alice",
        "COMMENT ON ISSUE backend#1 WITH 'Working on it'",
        "UPDATE issue backend#1 SET status = 'in-progress'",
        "CLOSE issue backend#1 WITH DONE",
        "CLOSE issue backend#456 WITH DUPLICATE",
        r"CREATE ISSUE OF KIND BUG IN test WITH TITLE 'Line1\nLine2\tTab\rReturn\\Backslash'",
        r"CREATE ISSUE OF KIND BUG IN test WITH TITLE 'Special chars: !@#$%^&*()_+-={}[]|:;<>?,./~`'",
        r#"CREATE ISSUE OF KIND BUG IN test WITH TITLE "Double quoted string""#,
        "CREATE ISSUE OF KIND EPIC IN test WITH TITLE 'T' DESCRIPTION 'D' PRIORITY high ASSIGNEE alice",
    ];
    for query in queries {
        let result = parse_query(query);
        assert!(result.is_ok(), "Failed to parse: {}", query);
    }
}

#[test]
fn escapes_resolve_in_titles() {
    let result =
        parse_query(r"CREATE ISSUE OF KIND BUG IN test WITH TITLE 'Line1\nLine2\tTab\rReturn\\Backslash'").unwrap();
    if let Statement::Create(CreateStatement::Issue { title, .. }) = result {
        assert_eq!(title, "Line1\nLine2\tTab\rReturn\\Backslash");
    } else {
        panic!("expected CREATE ISSUE");
    }
}

#[test]
fn filter_grouping_is_left_and_and_binds_tighter() {
    let st = parse_query("SELECT * FROM issues WHERE a = 1 OR b = 2 AND NOT c = 3 OR d IS NULL").unwrap();
    let cmp = |f: &str, n: u64| FilterExpression::Comparison {
        field: f.to_string(),
        op: issuecraft::ComparisonOp::Equal,
        value: IqlValue::UnsignedInteger(n),
    };
    let expected = FilterExpression::Or(
        Box::new(FilterExpression::Or(
            Box::new(cmp("a", 1)),
            Box::new(FilterExpression::And(
                Box::new(cmp("b", 2)),
                Box::new(FilterExpression::Not(Box::new(cmp("c", 3)))),
            )),
        )),
        Box::new(FilterExpression::IsNull("d".to_string())),
    );
    if let Statement::Select(s) = st {
        assert_eq!(s.filter, Some(expected));
        assert_eq!(s.limit, None);
    } else {
        panic!("expected a SELECT");
    }
}

#[test]
fn missing_clauses_are_named() {
    assert!(matches!(
        parse_query("CREATE ISSUE OF KIND BUG IN p WITH DESCRIPTION 'd' PRIORITY high"),
        Err(ParseError::MissingClause { ref clause, .. }) if clause == "TITLE"
    ));
    assert!(matches!(
        parse_query("CREATE ISSUE OF KIND BUG IN p"),
        Err(ParseError::MissingClause { ref clause, .. }) if clause == "WITH"
    ));
    assert!(matches!(parse_query("CREATE USER u WITH"), Err(ParseError::MissingClause { .. })));
    assert!(matches!(
        parse_query("CLOSE ISSUE backend 42"),
        Err(ParseError::InvalidIssueId { ref value, .. }) if value == "backend"
    ));
    assert_eq!(
        parse_query("CREATE PROJECT p WITH OWNER alice"),
        Ok(Statement::Create(CreateStatement::Project {
            project_id: issuecraft::ProjectId("p".to_string()),
            name: None,
            description: None,
            owner: Some(UserId("alice".to_string())),
        }))
    );
}
