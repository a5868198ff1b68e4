use issuecraft::{
    parse_query, CloseReason, Columns, ComparisonOp, CreateStatement, DeleteTarget, EntityType,
    FilterExpression, IqlValue, IssueKind, OrderDirection, Priority, Statement, UpdateTarget,
};

fn quote(s: &str) -> String {
    let mut out = String::from("'");
    for c in s.chars() {
        match c {
            '\\' => out.push_str("\\\\"),
            '\'' => out.push_str("\\'"),
            '\n' => out.push_str("\\n"),
            '\t' => out.push_str("\\t"),
            '\r' => out.push_str("\\r"),
            '\0' => out.push_str("\\0"),
            c => out.push(c),
        }
    }
    out.push('\'');
    out
}

fn priority(p: &Priority) -> &'static str {
    match p {
        Priority::Critical => "CRITICAL",
        Priority::High => "HIGH",
        Priority::Medium => "MEDIUM",
        Priority::Low => "LOW",
    }
}

fn value(v: &IqlValue) -> String {
    match v {
        IqlValue::String(s) => quote(s),
        IqlValue::Integer(n) if *n <= 0 => format!("-{}", n.unsigned_abs()),
        IqlValue::Integer(n) => n.to_string(),
        IqlValue::UnsignedInteger(n) => n.to_string(),
        IqlValue::Float(t) => t.clone(),
        IqlValue::Boolean(b) => if *b { "TRUE".to_string() } else { "FALSE".to_string() },
        IqlValue::Null => "NULL".to_string(),
        IqlValue::Priority(p) => priority(p).to_string(),
        IqlValue::Identifier(s) => s.clone(),
    }
}

fn op(o: &ComparisonOp) -> &'static str {
    match o {
        ComparisonOp::Equal => "=",
        ComparisonOp::NotEqual => "!=",
        ComparisonOp::GreaterThan => ">",
        ComparisonOp::LessThan => "<",
        ComparisonOp::GreaterThanOrEqual => ">=",
        ComparisonOp::LessThanOrEqual => "<=",
        ComparisonOp::Like => "LIKE",
    }
}

fn filter(f: &FilterExpression) -> String {
    match f {
        FilterExpression::Comparison { field, op: o, value: v } => {
            format!("{} {} {}", field, op(o), value(v))
        }
        FilterExpression::And(a, b) => format!("({}) AND ({})", filter(a), filter(b)),
        FilterExpression::Or(a, b) => format!("({}) OR ({})", filter(a), filter(b)),
        FilterExpression::Not(a) => format!("NOT ({})", filter(a)),
        FilterExpression::In { field, values } => format!(
            "{} IN ({})",
            field,
            values.iter().map(value).collect::<Vec<_>>().join(", ")
        ),
        FilterExpression::IsNull(field) => format!("{} IS NULL", field),
        FilterExpression::IsNotNull(field) => format!("{} IS NOT NULL", field),
    }
}

fn kind(k: &IssueKind) -> &'static str {
    match k {
        IssueKind::Epic => "EPIC",
        IssueKind::Improvement => "IMPROVEMENT",
        IssueKind::Bug => "BUG",
        IssueKind::Task => "TASK",
    }
}

fn reason(r: &CloseReason) -> &'static str {
    match r {
        CloseReason::Done => "DONE",
        CloseReason::Duplicate => "DUPLICATE",
        CloseReason::WontFix => "WONTFIX",
    }
}

/// The canonical text of a statement.
fn render(st: &Statement) -> String {
    match st {
        Statement::Create(CreateStatement::User { username, email, name }) => {
            let mut out = format!("CREATE USER {}", username);
            if email.is_some() || name.is_some() {
                out.push_str(" WITH");
                if let Some(e) = email {
                    out.push_str(&format!(" EMAIL {}", quote(e)));
                }
                if let Some(n) = name {
                    out.push_str(&format!(" NAME {}", quote(n)));
                }
            }
            out
        }
        Statement::Create(CreateStatement::Project { project_id, name, description, owner }) => {
            let mut out = format!("CREATE PROJECT {}", project_id.0);
            if name.is_some() || description.is_some() || owner.is_some() {
                out.push_str(" WITH");
                if let Some(n) = name {
                    out.push_str(&format!(" NAME {}", quote(n)));
                }
                if let Some(d) = description {
                    out.push_str(&format!(" DESCRIPTION {}", quote(d)));
                }
                if let Some(o) = owner {
                    out.push_str(&format!(" OWNER {}", o.0));
                }
            }
            out
        }
        Statement::Create(CreateStatement::Issue { project, kind: k, title, description, priority: p, assignee }) => {
            let mut out = format!("CREATE ISSUE OF KIND {} IN {} WITH TITLE {}", kind(k), project.0, quote(title));
            if let Some(d) = description {
                out.push_str(&format!(" DESCRIPTION {}", quote(d)));
            }
            if let Some(p) = p {
                out.push_str(&format!(" PRIORITY {}", priority(p)));
            }
            if let Some(a) = assignee {
                out.push_str(&format!(" ASSIGNEE {}", a.0));
            }
            out
        }
        Statement::Select(s) => {
            let cols = match &s.columns {
                Columns::All => "*".to_string(),
                Columns::Named(c) => c.join(", "),
            };
            let table = match s.from {
                EntityType::Users => "users",
                EntityType::Projects => "projects",
                EntityType::Issues => "issues",
                EntityType::Comments => "comments",
            };
            let mut out = format!("SELECT {} FROM {}", cols, table);
            if let Some(f) = &s.filter {
                out.push_str(&format!(" WHERE {}", filter(f)));
            }
            if let Some(o) = &s.order_by {
                let dir = match o.direction {
                    OrderDirection::Asc => "ASC",
                    OrderDirection::Desc => "DESC",
                };
                out.push_str(&format!(" ORDER BY {} {}", o.field, dir));
            }
            if let Some(n) = s.limit {
                out.push_str(&format!(" LIMIT {}", n));
            }
            if let Some(n) = s.offset {
                out.push_str(&format!(" OFFSET {}", n));
            }
            out
        }
        Statement::Update(u) => {
            let target = match &u.entity {
                UpdateTarget::User(id) => format!("USER {}", id.0),
                UpdateTarget::Project(id) => format!("PROJECT {}", id.0),
                UpdateTarget::Issue(id) => format!("ISSUE {}", id.0),
                UpdateTarget::Comment(id) => format!("COMMENT {}", id.0),
            };
            let sets: Vec<String> =
                u.updates.iter().map(|f| format!("{} = {}", f.field, value(&f.value))).collect();
            format!("UPDATE {} SET {}", target, sets.join(", "))
        }
        Statement::Delete(d) => match &d.entity {
            DeleteTarget::User(id) => format!("DELETE USER {}", id.0),
            DeleteTarget::Project(id) => format!("DELETE PROJECT {}", id.0),
            DeleteTarget::Issue(id) => format!("DELETE ISSUE {}", id.0),
            DeleteTarget::Comment(id) => format!("DELETE COMMENT {}", id.0),
        },
        Statement::Assign(a) => format!("ASSIGN ISSUE {} TO {}", a.issue_id.0, a.assignee.0),
        Statement::Close(c) => match &c.reason {
            Some(r) => format!("CLOSE ISSUE {} WITH {}", c.issue_id.0, reason(r)),
            None => format!("CLOSE ISSUE {}", c.issue_id.0),
        },
        Statement::Reopen(r) => format!("REOPEN ISSUE {}", r.issue_id.0),
        Statement::Comment(c) => format!("COMMENT ON ISSUE {} WITH {}", c.issue_id.0, quote(&c.content)),
    }
}

#[test]
fn parse_render_parse_is_parse() {
    let corpus = [
        "CREATE USER john_doe WITH EMAIL 'john@example.com' NAME 'John Doe'",
        "CREATE USER alice",
        "CREATE PROJECT my-project WITH NAME 'My Project' DESCRIPTION 'A test project' OWNER bob",
        "CREATE PROJECT backend WITH name 'Backend'",
        "CREATE ISSUE OF KIND BUG IN p WITH TITLE 'boom'",
        r"CREATE ISSUE OF KIND EPIC IN test WITH TITLE 'Line1\nLine2\tTab\rReturn\\Backslash' PRIORITY critical",
        r#"CREATE ISSUE OF KIND TASK IN test WITH TITLE "Double 'quoted' string" ASSIGNEE alice DESCRIPTION 'd'"#,
        "CREATE ISSUE OF KIND IMPROVEMENT IN test WITH TITLE 'Special chars: !@#$%^&*()_+-={}[]|:;<>?,./~`'",
        "SELECT * FROM issues",
        "SELECT title, status, assignee FROM issues WHERE project = 'backend' AND (priority = high OR status = 'critical') ORDER BY created_at DESC LIMIT 10",
        "SELECT * FROM issues WHERE ((a = 1 AND b = 2) OR (c = 3 AND d = 4)) AND e = 5",
        "SELECT * FROM issues WHERE NOT (status = 'closed' OR status = 'archived')",
        "SELECT * FROM issues WHERE priority IN (critical, high, medium) AND assignee IS NOT NULL",
        "SELECT * FROM issues WHERE assignee IS NULL OR count >= -3 OR score < 2.5 OR finished != TRUE",
        "SELECT project, user, issue FROM comments WHERE title LIKE '%bug%' ORDER BY title LIMIT 5 OFFSET 2",
        "UPDATE issue my-project#100 SET status = 'closed', priority = medium, assignee = 'bob'",
        "UPDATE issue backend#1 SET assignee = alice, project = backend, active = false, x = null",
        "UPDATE comment 789 SET content = 'updated'",
        "UPDATE project backend SET display = 'New Name'",
        "DELETE comment Cabc_12-x",
        "DELETE issue backend#456",
        "DELETE PROJECT p",
        "ASSIGN issue my-project#789 TO alice",
        "CLOSE issue backend#123",
        "CLOSE ISSUE p#1 WITH WONTFIX",
        "REOPEN ISSUE p#1",
        r#"COMMENT ON ISSUE backend#123 WITH 'It\'s "done"'"#,
    ];
    for text in corpus {
        let first = match parse_query(text) {
            Ok(st) => st,
            Err(e) => panic!("{} does not parse: {:?}", text, e),
        };
        let rendered = render(&first);
        assert_eq!(parse_query(&rendered), Ok(first), "{} rendered as {}", text, rendered);
    }
}
