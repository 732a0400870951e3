use column_store::{ColumnSpec, TransactionManager, Value};

fn schema_abcd() -> Vec<ColumnSpec> {
    vec![
        ColumnSpec::new("a".to_string(), false),
        ColumnSpec::new("b".to_string(), false),
        ColumnSpec::new("c".to_string(), false),
        ColumnSpec::new("d".to_string(), false),
    ]
}

#[test]
fn test_lock_exclusive_twice() {
    // One records file and one transaction-log file per table; a second
    // handle to each backs the competing open attempt.
    let records_file = tempfile::NamedTempFile::new().unwrap();
    let txn_log_file = tempfile::NamedTempFile::new().unwrap();

    let mut records_l = fd_lock::RwLock::new(records_file.reopen().unwrap());
    let mut txn_log_l = fd_lock::RwLock::new(txn_log_file.reopen().unwrap());
    let records_guard = records_l.try_write().unwrap();
    let txn_log_guard = txn_log_l.try_write().unwrap();
    let mut example_table_txn_mgr = TransactionManager::new(schema_abcd());

    // A second live instance against the same table files must fail at
    // once with a would-block error, never wait.
    let mut records_l2 = fd_lock::RwLock::new(records_file.reopen().unwrap());
    let mut txn_log_l2 = fd_lock::RwLock::new(txn_log_file.reopen().unwrap());
    let records_err = records_l2
        .try_write()
        .map(|_| ())
        .expect_err("Was able to open already-locked table file");
    assert_eq!(records_err.kind(), std::io::ErrorKind::WouldBlock);
    let txn_log_err = txn_log_l2
        .try_write()
        .map(|_| ())
        .expect_err("Was able to open already-locked table file");
    assert_eq!(txn_log_err.kind(), std::io::ErrorKind::WouldBlock);

    example_table_txn_mgr
        .stage_insert_one(vec![
            Value::U64(13),
            Value::U64(37),
            Value::U8(42),
            Value::Text("Hello World!".to_string()),
        ])
        .unwrap();
    example_table_txn_mgr.commit_staged();
    example_table_txn_mgr.note_log_write(true);
    assert_eq!(example_table_txn_mgr.table().num_rows(), 1);

    drop(records_guard);
    drop(txn_log_guard);

    // Once the first holder is gone the locks can be taken again.
    records_l2.try_write().unwrap();
    txn_log_l2.try_write().unwrap();
}
