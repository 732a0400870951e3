use column_store::{
    ColumnSpec, CompareOp, Predicate, Table, TableRecordInsertError, TransactionManager, Value,
};

fn schema_ab() -> Vec<ColumnSpec> {
    vec![
        ColumnSpec::new("a".to_string(), false),
        ColumnSpec::new("b".to_string(), false),
    ]
}

fn row_ab(a: u64, b: u64) -> Vec<Value> {
    vec![Value::U64(a), Value::U64(b)]
}

fn insert_one(mgr: &mut TransactionManager, row: Vec<Value>) {
    mgr.stage_insert_one(row).unwrap();
    mgr.commit_staged();
    mgr.note_log_write(true);
}

#[test]
fn test_column_lengths_stay_synchronized() {
    let mut t = Table::new(schema_ab());
    assert_eq!(t.num_rows(), 0);
    for k in 0..5u64 {
        t.stage_insert_one(row_ab(k, k + 100)).unwrap();
        t.commit_staged();
        assert_eq!(t.num_rows(), (k + 1) as usize);
        assert_eq!(t.committed_rows_count(), (k + 1) as usize);
    }
}

#[test]
fn test_rollback_restores_state_after_failed_write() {
    let mut t = Table::new(schema_ab());
    t.stage_insert_one(row_ab(1, 2)).unwrap();
    t.commit_staged();
    assert_eq!(t.num_rows(), 1);

    t.stage_insert_one(row_ab(3, 4)).unwrap();
    assert_eq!(t.num_rows(), 2);
    t.roll_back_staged();

    assert_eq!(t.num_rows(), 1);
    assert_eq!(t.committed_rows_count(), 1);
    let projection = vec!["a".to_string()];
    let predicates = vec![Predicate::new(
        "a".to_string(),
        CompareOp::Eq,
        Value::U64(3),
    )];
    assert_eq!(t.first_match(&projection, &predicates), None);
}

#[test]
fn test_insert_many_is_all_or_nothing() {
    let mut t = Table::new(schema_ab());
    t.stage_insert_one(row_ab(1, 2)).unwrap();
    t.commit_staged();

    let batch = vec![row_ab(10, 11), row_ab(20, 21), row_ab(30, 31)];
    t.stage_insert_many(&batch).unwrap();
    assert_eq!(t.num_rows(), 4);
    t.roll_back_staged();

    assert_eq!(t.num_rows(), 1);
    let projection = vec!["a".to_string()];
    for a in [10u64, 20, 30] {
        let predicates = vec![Predicate::new(
            "a".to_string(),
            CompareOp::Eq,
            Value::U64(a),
        )];
        assert_eq!(t.first_match(&projection, &predicates), None);
    }
}

#[test]
fn test_failed_durable_write_reports_io_error() {
    // Plays the embedding's role: stage, treat the durable append as
    // failed, roll back, and surface the operation's error.
    let mut t = Table::new(schema_ab());
    let res: Result<Vec<column_store::RowIdentifier>, TableRecordInsertError> =
        match t.stage_insert_one(row_ab(8, 9)) {
        Ok(_bytes) => {
            t.roll_back_staged();
            Err(TableRecordInsertError::IOError)
        }
        Err(e) => Err(e),
    };
    assert_eq!(res, Err(TableRecordInsertError::IOError));
    assert_eq!(t.num_rows(), 0);
    assert_eq!(t.committed_rows_count(), 0);
}

#[test]
fn test_insert_many_commits_whole_batch() {
    let mut t = Table::new(schema_ab());
    let batch = vec![row_ab(10, 11), row_ab(20, 21), row_ab(30, 31)];
    t.stage_insert_many(&batch).unwrap();
    let ids = t.commit_staged();
    assert_eq!(ids.len(), 3);
    assert_eq!(t.num_rows(), 3);
    assert_eq!(t.committed_rows_count(), 3);
}

#[test]
fn test_identifiers_are_pairwise_distinct() {
    let mut t = Table::new(schema_ab());
    for k in 0..50u64 {
        t.stage_insert_one(row_ab(k, k)).unwrap();
        t.commit_staged();
    }
    let mut ids = Vec::new();
    for r in 0..t.num_rows() {
        ids.push(t.identifier_at(r));
    }
    for i in 0..ids.len() {
        for j in 0..ids.len() {
            if i != j {
                assert_ne!(ids[i].bits, ids[j].bits);
            }
        }
        if i + 1 < ids.len() {
            assert!(ids[i].bits < ids[i + 1].bits);
        }
    }
}

#[test]
fn test_identifiers_survive_rollback_without_reuse() {
    let mut t = Table::new(schema_ab());
    t.stage_insert_one(row_ab(1, 1)).unwrap();
    let id0 = t.commit_staged()[0];
    t.stage_insert_one(row_ab(2, 2)).unwrap();
    t.roll_back_staged();
    t.stage_insert_one(row_ab(3, 3)).unwrap();
    let id1 = t.commit_staged()[0];
    assert!(id0.bits < id1.bits);
}

#[test]
fn test_unique_constraint_rejected_against_stored_rows() {
    let schema = vec![
        ColumnSpec::new("a".to_string(), true),
        ColumnSpec::new("b".to_string(), false),
    ];
    let mut t = Table::new(schema);
    t.stage_insert_one(row_ab(1, 2)).unwrap();
    t.commit_staged();

    let err = t.stage_insert_one(row_ab(1, 99)).unwrap_err();
    assert_eq!(err, TableRecordInsertError::ConstraintViolation);
    assert_eq!(t.num_rows(), 1);

    t.stage_insert_one(row_ab(2, 2)).unwrap();
    t.commit_staged();
    assert_eq!(t.num_rows(), 2);
}

#[test]
fn test_unique_constraint_rejected_within_batch() {
    let schema = vec![
        ColumnSpec::new("a".to_string(), true),
        ColumnSpec::new("b".to_string(), false),
    ];
    let mut t = Table::new(schema);
    let batch = vec![row_ab(5, 0), row_ab(5, 1)];
    let err = t.stage_insert_many(&batch).unwrap_err();
    assert_eq!(err, TableRecordInsertError::ConstraintViolation);
    assert_eq!(t.num_rows(), 0);
}

#[test]
fn test_duplicate_values_allowed_without_constraint() {
    let mut t = Table::new(schema_ab());
    t.stage_insert_one(row_ab(7, 7)).unwrap();
    t.commit_staged();
    t.stage_insert_one(row_ab(7, 7)).unwrap();
    t.commit_staged();
    assert_eq!(t.num_rows(), 2);
}

#[test]
fn test_staged_operation_blocks_second_staging() {
    let mut t = Table::new(schema_ab());
    t.stage_insert_one(row_ab(1, 2)).unwrap();
    let err = t.stage_insert_one(row_ab(3, 4)).unwrap_err();
    assert_eq!(err, TableRecordInsertError::TryLockError);
    t.commit_staged();
    assert_eq!(t.num_rows(), 1);
}

#[test]
fn test_manager_mid_operation_blocks_second_staging() {
    let mut mgr = TransactionManager::new(schema_ab());
    mgr.stage_insert_one(row_ab(1, 2)).unwrap();
    let err = mgr.stage_insert_one(row_ab(3, 4)).unwrap_err();
    assert_eq!(err, TableRecordInsertError::TryLockError);
    mgr.commit_staged();
    let err = mgr.stage_insert_one(row_ab(3, 4)).unwrap_err();
    assert_eq!(err, TableRecordInsertError::TryLockError);
    mgr.note_log_write(true);
    insert_one(&mut mgr, row_ab(3, 4));
    assert_eq!(mgr.table().num_rows(), 2);
}

#[test]
fn test_degraded_after_lost_log_write_of_committed_insert() {
    let mut mgr = TransactionManager::new(schema_ab());
    mgr.stage_insert_one(row_ab(1, 2)).unwrap();
    mgr.commit_staged();
    assert!(!mgr.is_degraded());
    mgr.note_log_write(false);
    assert!(mgr.is_degraded());
    assert_eq!(mgr.table().num_rows(), 1);
}

#[test]
fn test_not_degraded_after_lost_log_write_of_failed_insert() {
    let schema = vec![ColumnSpec::new("a".to_string(), true)];
    let mut mgr = TransactionManager::new(schema);
    mgr.stage_insert_one(vec![Value::U64(1)]).unwrap();
    mgr.commit_staged();
    mgr.note_log_write(true);

    let err = mgr.stage_insert_one(vec![Value::U64(1)]).unwrap_err();
    assert_eq!(err, TableRecordInsertError::ConstraintViolation);
    mgr.note_log_write(false);
    assert!(!mgr.is_degraded());
}

#[test]
fn test_rolled_back_manager_insert_reports_failure_entry() {
    let mut mgr = TransactionManager::new(schema_ab());
    let txn_before = mgr.next_transaction_id();
    mgr.stage_insert_one(row_ab(1, 2)).unwrap();
    mgr.roll_back_staged();
    assert_eq!(mgr.next_transaction_id(), txn_before + 1);
    let entry = mgr.pending_log_entry();
    // transaction number, operation byte, outcome byte, identifier count
    let mut expected = Vec::new();
    expected.extend_from_slice(&txn_before.to_le_bytes());
    expected.push(1u8); // insert
    expected.push(0u8); // failed
    expected.extend_from_slice(&0u64.to_le_bytes());
    assert_eq!(entry, expected);
    mgr.note_log_write(true);
    assert_eq!(mgr.table().num_rows(), 0);
}

#[test]
fn test_records_file_bytes_are_exact() {
    let schema = vec![ColumnSpec::new("x".to_string(), false)];
    let mut t = Table::new(schema);
    let bytes = t.stage_insert_one(vec![Value::U8(7)]).unwrap();
    let ids = t.commit_staged();
    let mut expected = Vec::new();
    expected.extend_from_slice(&ids[0].bits.to_le_bytes());
    expected.push(0u8); // tombstone: live
    expected.push(1u8); // value tag: one byte
    expected.push(7u8);
    assert_eq!(bytes, expected);
}

#[test]
fn test_records_file_bytes_for_u64_and_text() {
    let schema = vec![
        ColumnSpec::new("n".to_string(), false),
        ColumnSpec::new("s".to_string(), false),
    ];
    let mut t = Table::new(schema);
    let bytes = t
        .stage_insert_one(vec![Value::U64(513), Value::Text("hi".to_string())])
        .unwrap();
    let ids = t.commit_staged();
    let mut expected = Vec::new();
    expected.extend_from_slice(&ids[0].bits.to_le_bytes());
    expected.push(0u8); // tombstone: live
    expected.push(0u8); // value tag: little-endian u64
    expected.extend_from_slice(&513u64.to_le_bytes());
    expected.push(2u8); // value tag: length-prefixed text
    expected.extend_from_slice(&2u64.to_le_bytes());
    expected.extend_from_slice(b"hi");
    assert_eq!(bytes, expected);
}

#[test]
fn test_committed_log_entry_lists_identifiers() {
    let mut mgr = TransactionManager::new(schema_ab());
    let txn = mgr.next_transaction_id();
    mgr.stage_insert_many(&vec![row_ab(1, 2), row_ab(3, 4)]).unwrap();
    let ids = mgr.commit_staged();
    let entry = mgr.pending_log_entry();
    let mut expected = Vec::new();
    expected.extend_from_slice(&txn.to_le_bytes());
    expected.push(1u8); // insert
    expected.push(1u8); // committed
    expected.extend_from_slice(&2u64.to_le_bytes());
    expected.extend_from_slice(&ids[0].bits.to_le_bytes());
    expected.extend_from_slice(&ids[1].bits.to_le_bytes());
    assert_eq!(entry, expected);
    mgr.note_log_write(true);
}
