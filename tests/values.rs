use issuecraft::{
    CloseReason, Columns, ComparisonOp, Config, EntityType, FieldValue, FilterExpression, IqlValue,
    Priority, Record,
};

fn rec(fields: Vec<(&str, FieldValue)>) -> Record {
    Record { fields: fields.into_iter().map(|(n, v)| (n.to_string(), v)).collect() }
}

fn cmp(field: &str, op: ComparisonOp, value: IqlValue) -> FilterExpression {
    FilterExpression::Comparison { field: field.to_string(), op, value }
}

#[test]
fn filter_on_id_and_fields() {
    let r = rec(vec![
        ("title", FieldValue::Str("fix login".to_string())),
        ("priority", FieldValue::Str("HIGH".to_string())),
        ("count", FieldValue::Number(4)),
    ]);
    assert!(cmp("id", ComparisonOp::Equal, IqlValue::String("p#1".to_string())).matches("p#1", &r));
    assert!(!cmp("id", ComparisonOp::Equal, IqlValue::String("p#2".to_string())).matches("p#1", &r));
    assert!(cmp("priority", ComparisonOp::Equal, IqlValue::Priority(Priority::High)).matches("k", &r));
    assert!(cmp("count", ComparisonOp::GreaterThan, IqlValue::UnsignedInteger(3)).matches("k", &r));
    assert!(cmp("count", ComparisonOp::LessThanOrEqual, IqlValue::Integer(4)).matches("k", &r));
    assert!(!cmp("count", ComparisonOp::LessThan, IqlValue::Integer(-4)).matches("k", &r));
    assert!(cmp("title", ComparisonOp::Like, IqlValue::String("%log%".to_string())).matches("k", &r));
    assert!(!cmp("count", ComparisonOp::Like, IqlValue::String("4".to_string())).matches("k", &r));
    assert!(!cmp("title", ComparisonOp::Like, IqlValue::Integer(1)).matches("k", &r));
    let inside = FilterExpression::In {
        field: "priority".to_string(),
        values: vec![IqlValue::Priority(Priority::Low), IqlValue::Priority(Priority::High)],
    };
    assert!(inside.matches("k", &r));
    assert!(FilterExpression::IsNull("missing".to_string()).matches("k", &r));
    assert!(FilterExpression::IsNotNull("title".to_string()).matches("k", &r));
}

#[test]
fn closed_status_is_unordered() {
    let r = rec(vec![("status", FieldValue::Closed(CloseReason::Done))]);
    assert!(!cmp("status", ComparisonOp::Equal, IqlValue::String("Closed".to_string())).matches("k", &r));
    assert!(cmp("status", ComparisonOp::GreaterThan, IqlValue::String("Open".to_string())).matches("k", &r));
}

#[test]
fn names_of_kinds() {
    assert_eq!(EntityType::Issues.kind(), "ISSUE");
    assert_eq!(EntityType::Users.table_name(), "users");
    assert_eq!(Priority::Critical.name(), "CRITICAL");
    assert_eq!(CloseReason::WontFix.name(), "WONTFIX");
    assert_eq!(CloseReason::default(), CloseReason::Done);
    assert_eq!(Columns::All.len(), usize::MAX);
    assert_eq!(Config::default().db_path, "issuecraft.db");
}
