use column_store::{ColumnSpec, CompareOp, Predicate, TransactionManager, Value};

fn schema_abcd() -> Vec<ColumnSpec> {
    vec![
        ColumnSpec::new("a".to_string(), false),
        ColumnSpec::new("b".to_string(), false),
        ColumnSpec::new("c".to_string(), false),
        ColumnSpec::new("d".to_string(), false),
    ]
}

fn record(a: u64, b: u64, c: u8, d: &str) -> Vec<Value> {
    vec![
        Value::U64(a),
        Value::U64(b),
        Value::U8(c),
        Value::Text(d.to_string()),
    ]
}

fn insert_one(mgr: &mut TransactionManager, row: Vec<Value>) {
    mgr.stage_insert_one(row).unwrap();
    mgr.commit_staged();
    mgr.note_log_write(true);
}

#[test]
fn test_get_first_match_1() {
    let mut example_table_txn_mgr = TransactionManager::new(schema_abcd());
    insert_one(
        &mut example_table_txn_mgr,
        record(13, 37, 42, "Hello World!"),
    );
    insert_one(
        &mut example_table_txn_mgr,
        record(23, 23, 90, "Hot pepper sauce!"),
    );

    let projection = vec!["a".to_string(), "d".to_string()];
    let predicates = vec![Predicate::new(
        "a".to_string(),
        CompareOp::Gt,
        Value::U64(20),
    )];
    let row = example_table_txn_mgr
        .first_match(&projection, &predicates)
        .unwrap();
    assert_eq!(row[0], Value::U64(23));
    assert_eq!(row[1], Value::Text("Hot pepper sauce!".to_string()));
}

#[test]
fn test_get_first_match_2() {
    let mut example_table_txn_mgr = TransactionManager::new(schema_abcd());
    insert_one(
        &mut example_table_txn_mgr,
        record(13, 37, 42, "Hello World!"),
    );
    insert_one(
        &mut example_table_txn_mgr,
        record(23, 23, 90, "Hot pepper sauce!"),
    );

    let projection = vec!["c".to_string(), "d".to_string()];
    let predicates = vec![Predicate::new(
        "b".to_string(),
        CompareOp::Gt,
        Value::U64(20),
    )];
    let row = example_table_txn_mgr
        .first_match(&projection, &predicates)
        .unwrap();
    assert_eq!(row[0], Value::U8(42));
    assert_eq!(row[1], Value::Text("Hello World!".to_string()));
}

#[test]
fn test_first_match_no_qualifying_row() {
    let mut mgr = TransactionManager::new(schema_abcd());
    insert_one(&mut mgr, record(13, 37, 42, "Hello World!"));
    insert_one(&mut mgr, record(23, 23, 90, "Hot pepper sauce!"));

    let projection = vec!["a".to_string()];
    let predicates = vec![Predicate::new(
        "a".to_string(),
        CompareOp::Gt,
        Value::U64(1000),
    )];
    assert_eq!(mgr.first_match(&projection, &predicates), None);
}

#[test]
fn test_first_match_unknown_column_is_no_match() {
    let mut mgr = TransactionManager::new(schema_abcd());
    insert_one(&mut mgr, record(13, 37, 42, "Hello World!"));

    let projection = vec!["z".to_string()];
    let predicates = vec![];
    assert_eq!(mgr.first_match(&projection, &predicates), None);

    let projection = vec!["a".to_string()];
    let predicates = vec![Predicate::new(
        "z".to_string(),
        CompareOp::Gt,
        Value::U64(0),
    )];
    assert_eq!(mgr.first_match(&projection, &predicates), None);
}

#[test]
fn test_first_match_conjunction_and_text_equality() {
    let mut mgr = TransactionManager::new(schema_abcd());
    insert_one(&mut mgr, record(13, 37, 42, "Hello World!"));
    insert_one(&mut mgr, record(23, 23, 90, "Hot pepper sauce!"));

    let projection = vec!["a".to_string()];
    let predicates = vec![
        Predicate::new("b".to_string(), CompareOp::Gt, Value::U64(20)),
        Predicate::new(
            "d".to_string(),
            CompareOp::Eq,
            Value::Text("Hello World!".to_string()),
        ),
    ];
    let row = mgr.first_match(&projection, &predicates).unwrap();
    assert_eq!(row[0], Value::U64(13));

    let predicates = vec![
        Predicate::new("b".to_string(), CompareOp::Lt, Value::U64(30)),
        Predicate::new(
            "d".to_string(),
            CompareOp::Eq,
            Value::Text("Hello World!".to_string()),
        ),
    ];
    assert_eq!(mgr.first_match(&projection, &predicates), None);
}

#[test]
fn test_first_match_on_empty_table() {
    let mgr = TransactionManager::new(schema_abcd());
    let projection = vec!["a".to_string()];
    let predicates = vec![];
    assert_eq!(mgr.first_match(&projection, &predicates), None);
}
