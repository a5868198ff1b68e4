use issuecraft::{
    parse_query, run_query, IssueInfo, IssueKind, IssueStatus, ProjectId, ProjectInfo, Action, AuthorizationProvider, AuthorizationResult, AuthorizationStatus,
    BackendError, CloseReason, Database, DatabaseType, ExecutionResult, FieldValue, IqlError,
    Record, Resource, SelectStatement, SingleUserAuthorizationProvider, SingleUserUserProvider,
    Statement, UserId, UserProvider,
};

fn fresh() -> Database {
    Database::new(&DatabaseType::InMemory).unwrap()
}

fn run(db: &mut Database, q: &str) -> Result<ExecutionResult, IqlError> {
    run_query(db, &SingleUserUserProvider, &SingleUserAuthorizationProvider, q)
}

fn select(db: &Database, q: &str) -> Vec<(String, Record)> {
    match parse_query(q).unwrap() {
        Statement::Select(s) => db.select_rows(&s).unwrap(),
        _ => panic!("not a SELECT"),
    }
}

fn select_stmt(q: &str) -> SelectStatement {
    match parse_query(q).unwrap() {
        Statement::Select(s) => s,
        _ => panic!("not a SELECT"),
    }
}

fn field<'a>(r: &'a Record, name: &str) -> Option<&'a FieldValue> {
    r.fields.iter().find(|(n, _)| n == name).map(|(_, v)| v)
}

fn text(v: &str) -> FieldValue {
    FieldValue::Str(v.to_string())
}

fn keys(rows: &[(String, Record)]) -> Vec<String> {
    rows.iter().map(|(k, _)| k.clone()).collect()
}

fn setup_three_issues(db: &mut Database) {
    assert_eq!(run(db, "CREATE PROJECT p").unwrap().rows, 1);
    for _ in 0..3 {
        assert_eq!(run(db, "CREATE ISSUE OF KIND BUG IN p WITH TITLE 'boom'").unwrap().rows, 1);
    }
}

#[test]
fn create_project_then_select_it() {
    let mut db = fresh();
    let r = run(&mut db, "CREATE PROJECT backend WITH name 'Backend'").unwrap();
    assert_eq!(r.rows, 1);
    let r = run(&mut db, "SELECT * FROM projects WHERE id = 'backend'").unwrap();
    assert_eq!(r.rows, 0);
    let data = r.data.unwrap();
    assert_eq!(data, r#"[{"key":"backend","value":{"owner":"default","display":"Backend"}}]"#);
    let rows = select(&db, "SELECT * FROM projects WHERE id = 'backend'");
    assert_eq!(rows.len(), 1);
    assert_eq!(field(&rows[0].1, "display"), Some(&text("Backend")));
    assert_eq!(field(&rows[0].1, "owner"), Some(&text("default")));
}

#[test]
fn double_create_is_refused() {
    let mut db = fresh();
    assert_eq!(run(&mut db, "CREATE PROJECT p").unwrap().rows, 1);
    let before = db.projects.clone();
    let err = run(&mut db, "CREATE PROJECT p").unwrap_err();
    assert_eq!(err, IqlError::Backend(BackendError::ProjectAlreadyExists("p".to_string())));
    assert_eq!(db.projects, before);
}

#[test]
fn issues_are_numbered_per_project() {
    let mut db = fresh();
    setup_three_issues(&mut db);
    let rows = select(&db, "SELECT * FROM issues");
    assert_eq!(keys(&rows), vec!["p#1", "p#2", "p#3"]);
    for (_, r) in &rows {
        assert_eq!(field(r, "status"), Some(&text("Open")));
        assert_eq!(field(r, "kind"), Some(&text("Bug")));
        assert_eq!(field(r, "project"), Some(&text("p")));
        assert_eq!(field(r, "assignee"), Some(&text("default")));
    }
}

#[test]
fn numbering_goes_past_nine() {
    let mut db = fresh();
    run(&mut db, "CREATE PROJECT p").unwrap();
    run(&mut db, "CREATE PROJECT p2").unwrap();
    for _ in 0..12 {
        run(&mut db, "CREATE ISSUE OF KIND TASK IN p WITH TITLE 't'").unwrap();
    }
    run(&mut db, "CREATE ISSUE OF KIND TASK IN p2 WITH TITLE 'other'").unwrap();
    let rows = select(&db, "SELECT * FROM issues WHERE project = 'p'");
    assert_eq!(rows.len(), 12);
    assert_eq!(rows[11].0, "p#12");
    assert_eq!(rows[9].0, "p#10");
    let rows = select(&db, "SELECT * FROM issues WHERE project = 'p2'");
    assert_eq!(keys(&rows), vec!["p2#1"]);
}

#[test]
fn issue_in_missing_project() {
    let mut db = fresh();
    let err = run(&mut db, "CREATE ISSUE OF KIND BUG IN nowhere WITH TITLE 'x'").unwrap_err();
    assert_eq!(
        err,
        IqlError::Backend(BackendError::ItemNotFound {
            kind: "PROJECT".to_string(),
            id: "nowhere".to_string()
        })
    );
}

#[test]
fn cascade_delete_counts_rows() {
    let mut db = fresh();
    setup_three_issues(&mut db);
    assert_eq!(run(&mut db, "COMMENT ON ISSUE p#2 WITH 'hello'").unwrap().rows, 1);
    let comments = select(&db, "SELECT * FROM comments");
    assert_eq!(comments.len(), 1);
    assert!(comments[0].0.starts_with('C'));
    assert_eq!(comments[0].0.len(), 22);
    assert_eq!(field(&comments[0].1, "author"), Some(&text("default")));
    assert_eq!(field(&comments[0].1, "content"), Some(&text("hello")));
    assert_eq!(field(&comments[0].1, "issue"), Some(&text("p#2")));
    match field(&comments[0].1, "created_at") {
        Some(FieldValue::Number(t)) => assert!(*t > 1_600_000_000),
        other => panic!("unexpected created_at {:?}", other),
    }
    let r = run(&mut db, "DELETE PROJECT p").unwrap();
    assert_eq!(r.rows, 5);
    assert!(select(&db, "SELECT * FROM issues").is_empty());
    assert!(select(&db, "SELECT * FROM comments").is_empty());
    assert!(select(&db, "SELECT * FROM projects").is_empty());
}

#[test]
fn delete_issue_takes_its_comments() {
    let mut db = fresh();
    setup_three_issues(&mut db);
    run(&mut db, "COMMENT ON ISSUE p#1 WITH 'a'").unwrap();
    run(&mut db, "COMMENT ON ISSUE p#1 WITH 'b'").unwrap();
    run(&mut db, "COMMENT ON ISSUE p#3 WITH 'c'").unwrap();
    assert_eq!(run(&mut db, "DELETE ISSUE p#1").unwrap().rows, 3);
    assert_eq!(keys(&select(&db, "SELECT * FROM issues")), vec!["p#2", "p#3"]);
    assert_eq!(select(&db, "SELECT * FROM comments").len(), 1);
}

#[test]
fn comment_on_missing_issue() {
    let mut db = fresh();
    run(&mut db, "CREATE PROJECT p").unwrap();
    let err = run(&mut db, "COMMENT ON ISSUE p#9 WITH 'x'").unwrap_err();
    assert_eq!(
        err,
        IqlError::Backend(BackendError::ItemNotFound { kind: "ISSUE".to_string(), id: "p#9".to_string() })
    );
}

#[test]
fn close_then_reopen() {
    let mut db = fresh();
    setup_three_issues(&mut db);
    assert_eq!(run(&mut db, "CLOSE ISSUE p#1 WITH WONTFIX").unwrap().rows, 1);
    let before = db.issues.clone();
    let err = run(&mut db, "CLOSE ISSUE p#1").unwrap_err();
    assert_eq!(
        err,
        IqlError::Backend(BackendError::IssueAlreadyClosed("p#1".to_string(), CloseReason::WontFix))
    );
    assert_eq!(db.issues, before);
    assert_eq!(run(&mut db, "REOPEN ISSUE p#1").unwrap().rows, 1);
    let after_reopen = db.issues.clone();
    assert_eq!(run(&mut db, "REOPEN ISSUE p#1").unwrap().rows, 0);
    assert_eq!(db.issues, after_reopen);
    let rows = select(&db, "SELECT * FROM issues WHERE id = 'p#1'");
    assert_eq!(field(&rows[0].1, "status"), Some(&text("Open")));
}

#[test]
fn close_without_reason_is_done() {
    let mut db = fresh();
    setup_three_issues(&mut db);
    run(&mut db, "CLOSE ISSUE p#2").unwrap();
    let rows = select(&db, "SELECT * FROM issues WHERE id = 'p#2'");
    assert_eq!(field(&rows[0].1, "status"), Some(&FieldValue::Closed(CloseReason::Done)));
}

#[test]
fn like_and_in_filters() {
    let mut db = fresh();
    run(&mut db, "CREATE PROJECT p").unwrap();
    for t in ["fix login", "fix logout", "add login"] {
        run(&mut db, &format!("CREATE ISSUE OF KIND TASK IN p WITH TITLE '{}'", t)).unwrap();
    }
    let q = "SELECT * FROM issues WHERE title LIKE 'fix%' AND priority IN (HIGH, CRITICAL)";
    assert!(select(&db, q).is_empty());
    run(&mut db, "UPDATE ISSUE p#1 SET priority = HIGH").unwrap();
    assert_eq!(keys(&select(&db, q)), vec!["p#1"]);
    assert_eq!(keys(&select(&db, "SELECT * FROM issues WHERE title LIKE 'fix%'")), vec!["p#1", "p#2"]);
    assert_eq!(keys(&select(&db, "SELECT * FROM issues WHERE title LIKE '%login'")), vec!["p#1", "p#3"]);
}

#[test]
fn unknown_field_is_refused() {
    let mut db = fresh();
    setup_three_issues(&mut db);
    let before = db.issues.clone();
    let err = run(&mut db, "UPDATE ISSUE p#1 SET title = 'ok', color = 'red'").unwrap_err();
    assert_eq!(err, IqlError::Backend(BackendError::FieldNotFound("color".to_string())));
    assert_eq!(db.issues, before);
    let err = run(&mut db, "UPDATE PROJECT p SET title = 'x'").unwrap_err();
    assert_eq!(err, IqlError::Backend(BackendError::FieldNotFound("title".to_string())));
    assert_eq!(run(&mut db, "UPDATE PROJECT p SET display = 'P'").unwrap().rows, 1);
    let err = run(&mut db, "UPDATE ISSUE p#7 SET title = 'x'").unwrap_err();
    assert_eq!(
        err,
        IqlError::Backend(BackendError::ItemNotFound { kind: "ISSUE".to_string(), id: "p#7".to_string() })
    );
}

#[test]
fn users_are_not_supported() {
    let mut db = fresh();
    assert_eq!(run(&mut db, "SELECT * FROM users").unwrap_err(), IqlError::Backend(BackendError::NotSupported));
    assert_eq!(run(&mut db, "CREATE USER alice").unwrap_err(), IqlError::Backend(BackendError::NotSupported));
    assert_eq!(run(&mut db, "DELETE USER alice").unwrap_err(), IqlError::Backend(BackendError::NotSupported));
    assert_eq!(
        run(&mut db, "UPDATE USER alice SET email = 'x'").unwrap_err(),
        IqlError::Backend(BackendError::NotSupported)
    );
}

#[test]
fn owner_must_be_known() {
    let mut db = fresh();
    let err = run(&mut db, "CREATE PROJECT p WITH OWNER ghost").unwrap_err();
    assert_eq!(err, IqlError::Backend(BackendError::UserNotFound { id: "ghost".to_string() }));
    let info = issuecraft::UserInfo {
        name: "Ghost".to_string(),
        display: None,
        email: "g@example.com".to_string(),
    };
    db.add_user(&UserId("ghost".to_string()), &info);
    assert_eq!(db.get(issuecraft::EntityType::Users, "ghost"), Some(&info.to_record()));
    assert_eq!(run(&mut db, "CREATE PROJECT p WITH OWNER ghost").unwrap().rows, 1);
}

#[test]
fn assign_sets_assignee() {
    let mut db = fresh();
    setup_three_issues(&mut db);
    assert_eq!(run(&mut db, "ASSIGN ISSUE p#3 TO alice").unwrap().rows, 1);
    let rows = select(&db, "SELECT * FROM issues WHERE assignee = alice");
    assert_eq!(keys(&rows), vec!["p#3"]);
}

#[test]
fn order_by_puts_missing_last() {
    let mut db = fresh();
    run(&mut db, "CREATE PROJECT p").unwrap();
    run(&mut db, "CREATE ISSUE OF KIND TASK IN p WITH TITLE 'a'").unwrap();
    run(&mut db, "CREATE ISSUE OF KIND TASK IN p WITH TITLE 'b' PRIORITY LOW").unwrap();
    run(&mut db, "CREATE ISSUE OF KIND TASK IN p WITH TITLE 'c' PRIORITY HIGH").unwrap();
    run(&mut db, "CREATE ISSUE OF KIND TASK IN p WITH TITLE 'd'").unwrap();
    run(&mut db, "CREATE ISSUE OF KIND TASK IN p WITH TITLE 'e' PRIORITY CRITICAL").unwrap();
    let asc = select(&db, "SELECT * FROM issues ORDER BY priority");
    assert_eq!(keys(&asc), vec!["p#5", "p#3", "p#2", "p#1", "p#4"]);
    let desc = select(&db, "SELECT * FROM issues ORDER BY priority DESC");
    assert_eq!(keys(&desc), vec!["p#2", "p#3", "p#5", "p#1", "p#4"]);
    let by_title = select(&db, "SELECT * FROM issues ORDER BY title DESC");
    assert_eq!(keys(&by_title), vec!["p#5", "p#4", "p#3", "p#2", "p#1"]);
}

#[test]
fn offset_and_limit_come_before_filter() {
    let mut db = fresh();
    run(&mut db, "CREATE PROJECT p").unwrap();
    for t in ["x", "y", "x", "y", "x"] {
        run(&mut db, &format!("CREATE ISSUE OF KIND TASK IN p WITH TITLE '{}'", t)).unwrap();
    }
    let rows = db.select_rows(&select_stmt("SELECT * FROM issues WHERE title = 'x' LIMIT 2 OFFSET 1")).unwrap();
    assert_eq!(keys(&rows), vec!["p#3"]);
    let rows = select(&db, "SELECT * FROM issues LIMIT 2");
    assert_eq!(keys(&rows), vec!["p#1", "p#2"]);
    let rows = select(&db, "SELECT * FROM issues OFFSET 9");
    assert!(rows.is_empty());
}

#[test]
fn parse_errors_change_nothing() {
    let mut db = fresh();
    let err = run(&mut db, "CREATE PROJEKT p").unwrap_err();
    assert!(matches!(err, IqlError::MalformedIql(_)));
    assert!(db.projects.rows.is_empty());
}

struct Stranger;

impl UserProvider for Stranger {
    fn get_user(&self, _token: &str) -> Result<UserId, BackendError> {
        Ok(UserId("mallory".to_string()))
    }
}

struct Deny;

impl AuthorizationProvider for Deny {
    fn check_authorization(
        &self,
        principal: &UserId,
        action: Action,
        resource: Resource,
        _context: Option<&Record>,
    ) -> Result<AuthorizationResult, BackendError> {
        Ok(AuthorizationResult {
            user: principal.clone(),
            action,
            resource,
            status: AuthorizationStatus::Denied,
        })
    }
}

#[test]
fn comment_updates_are_authorized() {
    let mut db = fresh();
    setup_three_issues(&mut db);
    run(&mut db, "COMMENT ON ISSUE p#1 WITH 'first'").unwrap();
    let id = select(&db, "SELECT * FROM comments")[0].0.clone();
    let q = format!("UPDATE COMMENT {} SET content = 'edited'", id);
    let denied = run_query(&mut db, &SingleUserUserProvider, &Deny, &q).unwrap_err();
    assert!(matches!(denied, IqlError::Backend(BackendError::PermissionDenied(_))));
    let stranger = run_query(&mut db, &Stranger, &SingleUserAuthorizationProvider, &q).unwrap_err();
    assert!(matches!(stranger, IqlError::Backend(BackendError::PermissionDenied(_))));
    assert_eq!(run(&mut db, &q).unwrap().rows, 1);
    let rows = select(&db, "SELECT * FROM comments");
    assert_eq!(field(&rows[0].1, "content"), Some(&text("edited")));
}

#[test]
fn negation_complements_filter() {
    let mut db = fresh();
    setup_three_issues(&mut db);
    run(&mut db, "UPDATE ISSUE p#2 SET title = 'other'").unwrap();
    let all = select(&db, "SELECT * FROM issues").len();
    for f in ["title = 'boom'", "title != 'boom'", "priority IS NULL", "nothing = 1", "title LIKE 'b%'"] {
        let yes = select(&db, &format!("SELECT * FROM issues WHERE {}", f)).len();
        let no = select(&db, &format!("SELECT * FROM issues WHERE NOT ({})", f)).len();
        assert_eq!(yes + no, all, "{}", f);
    }
}

#[test]
fn missing_field_comparisons() {
    let mut db = fresh();
    setup_three_issues(&mut db);
    assert!(select(&db, "SELECT * FROM issues WHERE nothing = 1").is_empty());
    assert_eq!(select(&db, "SELECT * FROM issues WHERE nothing != 1").len(), 3);
    assert_eq!(select(&db, "SELECT * FROM issues WHERE nothing IS NULL").len(), 3);
    assert!(select(&db, "SELECT * FROM issues WHERE nothing IS NOT NULL").is_empty());
    assert!(select(&db, "SELECT * FROM issues WHERE nothing IN (1, 2)").is_empty());
}

#[test]
fn comparisons_use_the_value_order() {
    let mut db = fresh();
    setup_three_issues(&mut db);
    run(&mut db, "UPDATE ISSUE p#1 SET title = 'apple'").unwrap();
    run(&mut db, "UPDATE ISSUE p#3 SET title = 'zebra'").unwrap();
    assert_eq!(keys(&select(&db, "SELECT * FROM issues WHERE title > 'boom'")), vec!["p#3"]);
    assert_eq!(keys(&select(&db, "SELECT * FROM issues WHERE title <= 'boom'")), vec!["p#1", "p#2"]);
    assert_eq!(keys(&select(&db, "SELECT * FROM issues WHERE title >= 5")), vec!["p#1", "p#2", "p#3"]);
    assert!(select(&db, "SELECT * FROM issues WHERE title < 5").is_empty());
}

#[test]
fn rendered_data_escapes_strings() {
    let mut db = fresh();
    run(&mut db, "CREATE PROJECT q WITH DESCRIPTION 'say \"hi\"\\n' NAME 'Q'").unwrap();
    let r = run(&mut db, "SELECT * FROM projects").unwrap();
    assert_eq!(
        r.data.unwrap(),
        r#"[{"key":"q","value":{"description":"say \"hi\"\n","owner":"default","display":"Q"}}]"#
    );
}

#[test]
fn execution_result_builders() {
    let mut r = ExecutionResult::zero();
    r.inc();
    r.inc();
    assert_eq!(r.rows, 2);
    assert_eq!(ExecutionResult::one().rows, 1);
    assert_eq!(ExecutionResult::new(7).with_info("x").info, Some("x".to_string()));
}

#[test]
fn accessors_follow_the_tables() {
    let mut db = fresh();
    assert_eq!(db.get_next_issue_id("p"), 1);
    setup_three_issues(&mut db);
    assert_eq!(db.get_next_issue_id("p"), 4);
    assert_eq!(db.get_next_issue_id("q"), 1);
    assert_eq!(db.get_keys(issuecraft::EntityType::Issues), vec!["p#1", "p#2", "p#3"]);
    assert!(db.contains_key(issuecraft::EntityType::Projects, "p"));
    assert!(!db.contains_key(issuecraft::EntityType::Projects, "q"));
    assert!(db.get(issuecraft::EntityType::Issues, "p#2").is_some());
    assert!(db.get(issuecraft::EntityType::Issues, "p#9").is_none());
    let entries = db.get_all(&select_stmt("SELECT * FROM issues WHERE id != 'p#2' ORDER BY title DESC")).unwrap();
    let ks: Vec<String> = entries.iter().map(|e| e.key.clone()).collect();
    assert_eq!(ks, vec!["p#1", "p#3"]);
    assert_eq!(
        db.get_all(&select_stmt("SELECT * FROM users")).unwrap_err(),
        BackendError::NotSupported
    );
}

#[test]
fn typed_records_match_stored_ones() {
    let mut db = fresh();
    run(&mut db, "CREATE PROJECT p WITH NAME 'P' DESCRIPTION 'd'").unwrap();
    run(&mut db, "CREATE ISSUE OF KIND EPIC IN p WITH TITLE 't' PRIORITY LOW").unwrap();
    let project = ProjectInfo {
        description: Some("d".to_string()),
        owner: UserId("default".to_string()),
        display: Some("P".to_string()),
    };
    assert_eq!(db.get(issuecraft::EntityType::Projects, "p"), Some(&project.to_record()));
    let mut issue = IssueInfo {
        title: "t".to_string(),
        kind: IssueKind::Epic,
        description: None,
        status: IssueStatus::Open,
        project: ProjectId("p".to_string()),
        priority: Some(issuecraft::Priority::Low),
        assignee: UserId("default".to_string()),
    };
    assert!(!issue.is_closed());
    assert_eq!(db.get(issuecraft::EntityType::Issues, "p#1"), Some(&issue.to_record()));
    run(&mut db, "CLOSE ISSUE p#1 WITH DUPLICATE").unwrap();
    issue.status = IssueStatus::Closed { reason: CloseReason::Duplicate };
    assert!(issue.is_closed());
    assert_eq!(db.get(issuecraft::EntityType::Issues, "p#1"), Some(&issue.to_record()));
}

struct NoUser;

impl UserProvider for NoUser {
    fn get_user(&self, _token: &str) -> Result<UserId, BackendError> {
        Err(BackendError::NotImplemented)
    }
}

#[test]
fn provider_is_asked_only_when_needed() {
    let mut db = fresh();
    let info = issuecraft::UserInfo { name: "A".to_string(), display: None, email: "a@x".to_string() };
    db.add_user(&UserId("alice".to_string()), &info);
    let ap = SingleUserAuthorizationProvider;
    assert_eq!(run_query(&mut db, &NoUser, &ap, "CREATE PROJECT p WITH OWNER alice").unwrap().rows, 1);
    assert_eq!(
        run_query(&mut db, &NoUser, &ap, "CREATE PROJECT p WITH OWNER alice").unwrap_err(),
        IqlError::Backend(BackendError::ProjectAlreadyExists("p".to_string()))
    );
    assert_eq!(
        run_query(&mut db, &NoUser, &ap, "CREATE ISSUE OF KIND BUG IN q WITH TITLE 't'").unwrap_err(),
        IqlError::Backend(BackendError::ItemNotFound { kind: "PROJECT".to_string(), id: "q".to_string() })
    );
    assert_eq!(
        run_query(&mut db, &NoUser, &ap, "CREATE ISSUE OF KIND BUG IN p WITH TITLE 't' ASSIGNEE alice").unwrap().rows,
        1
    );
    assert_eq!(
        run_query(&mut db, &NoUser, &ap, "CREATE PROJECT r").unwrap_err(),
        IqlError::Backend(BackendError::NotImplemented)
    );
    assert_eq!(
        run_query(&mut db, &NoUser, &ap, "COMMENT ON ISSUE p#7 WITH 'x'").unwrap_err(),
        IqlError::Backend(BackendError::ItemNotFound { kind: "ISSUE".to_string(), id: "p#7".to_string() })
    );
}
