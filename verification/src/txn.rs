//! The transaction manager: wraps a table and surrounds every mutation with
//! a transaction-log entry.
//!
//! Each operation runs in three steps.  Staging delegates to the table and
//! hands back the records-file bytes; a staging that the table refuses
//! produces a failure log entry instead.  Finishing — commit after a
//! successful durable append, rollback after a failed one — builds the log
//! entry describing the operation and its outcome, identifiers included.
//! The caller then appends that entry to the transaction-log file and
//! reports the outcome; a failed log write after a committed mutation is
//! recorded as a degraded-durability condition, never rolled back, since
//! the row data already committed.

use vstd::prelude::*;

use crate::TableRecordInsertError;
use crate::codec::{
    TXN_OP_INSERT, TXN_OUTCOME_COMMITTED, TXN_OUTCOME_FAILED, encode_txn_entry, push_bytes,
    spec_encode_record_entries, spec_encode_txn_entry,
};
use crate::identifier::RowIdentifier;
use crate::schema::ColumnSpec;
use crate::table::{
    Table, TableView, spec_committed_staged, spec_rolled_back, spec_rows_width_ok,
    spec_stage_extends, spec_unique_violation,
};
use crate::value::{Value, views_of_rows, views_of_values};

verus! {

/// Where the manager stands in the stage / make-durable / log cycle.
#[derive(Clone, Copy, Debug, PartialEq, Eq, Structural)]
pub enum ManagerPhase {
    /// No operation in flight.
    Idle,
    /// Rows are staged; their records-file bytes await the append outcome.
    RecordsStaged,
    /// The operation finished; its transaction-log entry awaits the log
    /// write outcome.
    AwaitingLog,
}

/// A transaction manager: a table plus the transaction-log protocol state.
pub struct TransactionManager {
    table: Table,
    next_txn_id: u64,
    degraded: bool,
    phase: ManagerPhase,
    pending_log: Vec<u8>,
    last_committed: bool,
    txn_log: Ghost<Seq<u8>>,
}

/// Mathematical model of a [`TransactionManager`].
pub struct TransactionManagerView {
    pub table: TableView,
    pub next_txn_id: int,
    /// Set once a committed mutation's log entry could not be written.
    pub degraded: bool,
    pub phase: ManagerPhase,
    /// The log entry awaiting its write outcome.
    pub pending_log: Seq<u8>,
    /// Whether the operation awaiting its log write committed.
    pub last_committed: bool,
    /// The bytes of the transaction-log file.
    pub txn_log: Seq<u8>,
}

impl View for TransactionManager {
    type V = TransactionManagerView;

    closed spec fn view(&self) -> TransactionManagerView {
        TransactionManagerView {
            table: self.table@,
            next_txn_id: self.next_txn_id as int,
            degraded: self.degraded,
            phase: self.phase,
            pending_log: self.pending_log@,
            last_committed: self.last_committed,
            txn_log: self.txn_log@,
        }
    }
}

impl TransactionManagerView {
    /// Manager well-formedness: the table is well-formed and holds staged
    /// rows exactly while records-file bytes are outstanding.
    pub open spec fn wf(self) -> bool {
        &&& self.table.wf()
        &&& (self.table.staging <==> self.phase == ManagerPhase::RecordsStaged)
        &&& 0 <= self.next_txn_id <= u64::MAX
    }
}

impl TransactionManager {
    /// A manager over an empty table, with empty logs.
    pub fn new(schema: Vec<ColumnSpec>) -> (m: TransactionManager)
        ensures
            m@.wf(),
            m@.table.store.schema == crate::schema::views_of_columns(schema@),
            m@.table.store.nrows() == 0,
            m@.phase == ManagerPhase::Idle,
            !m@.degraded,
            m@.txn_log == Seq::<u8>::empty(),
            m@.table.log == Seq::<u8>::empty(),
            m@.table.issued == 0,
            m@.next_txn_id == 1,
    {
        TransactionManager {
            table: Table::new(schema),
            next_txn_id: 1,
            degraded: false,
            phase: ManagerPhase::Idle,
            pending_log: Vec::new(),
            last_committed: false,
            txn_log: Ghost(Seq::empty()),
        }
    }

    /// The wrapped table, for queries and inspection.
    pub fn table(&self) -> (t: &Table)
        ensures
            t@ == self@.table,
    {
        &self.table
    }

    /// Where the manager stands in the operation cycle.
    pub fn phase(&self) -> (p: ManagerPhase)
        ensures
            p == self@.phase,
    {
        self.phase
    }

    /// Whether a committed mutation's log entry was ever lost.
    pub fn is_degraded(&self) -> (b: bool)
        ensures
            b == self@.degraded,
    {
        self.degraded
    }

    /// The next transaction number to be assigned.
    pub fn next_transaction_id(&self) -> (n: u64)
        ensures
            n == self@.next_txn_id,
    {
        self.next_txn_id
    }

    /// Stages a batch insert through the table.  On success the returned
    /// bytes must be appended to the records file before the operation is
    /// finished.  A refusal by the table — a uniqueness violation — ends
    /// the operation at once: its failure log entry becomes pending and
    /// must be flushed like any other.  A manager already mid-operation
    /// refuses with `TryLockError` and changes nothing.
    pub fn stage_insert_many(&mut self, rows: &Vec<Vec<Value>>) -> (res: Result<
        Vec<u8>,
        TableRecordInsertError,
    >)
        requires
            old(self)@.wf(),
            spec_rows_width_ok(views_of_rows(rows@), old(self)@.table.store.schema.len() as int),
            old(self)@.table.issued + rows@.len() <= u64::MAX,
            old(self)@.next_txn_id < u64::MAX,
        ensures
            final(self)@.wf(),
            final(self)@.degraded == old(self)@.degraded,
            final(self)@.txn_log == old(self)@.txn_log,
            match res {
                Ok(bytes) => {
                    &&& old(self)@.phase == ManagerPhase::Idle
                    &&& !spec_unique_violation(old(self)@.table.store, views_of_rows(rows@))
                    &&& final(self)@.phase == ManagerPhase::RecordsStaged
                    &&& final(self)@.next_txn_id == old(self)@.next_txn_id
                    &&& spec_stage_extends(
                        old(self)@.table,
                        final(self)@.table,
                        views_of_rows(rows@),
                    )
                    &&& bytes@ == spec_encode_record_entries(
                        final(self)@.table.store.ids.skip(old(self)@.table.committed),
                        views_of_rows(rows@),
                    )
                },
                Err(e) => {
                    &&& final(self)@.table == old(self)@.table
                    &&& (e == TableRecordInsertError::TryLockError <==> old(self)@.phase
                        != ManagerPhase::Idle)
                    &&& (old(self)@.phase != ManagerPhase::Idle ==> final(self)@ == old(self)@)
                    &&& (old(self)@.phase == ManagerPhase::Idle ==> {
                        &&& e == TableRecordInsertError::ConstraintViolation
                        &&& spec_unique_violation(old(self)@.table.store, views_of_rows(rows@))
                        &&& final(self)@.phase == ManagerPhase::AwaitingLog
                        &&& !final(self)@.last_committed
                        &&& final(self)@.next_txn_id == old(self)@.next_txn_id + 1
                        &&& final(self)@.pending_log == spec_encode_txn_entry(
                            old(self)@.next_txn_id as u64,
                            TXN_OP_INSERT,
                            TXN_OUTCOME_FAILED,
                            Seq::<RowIdentifier>::empty(),
                        )
                    })
                },
            },
    {
        match self.phase {
            ManagerPhase::Idle => {},
            _ => {
                return Err(TableRecordInsertError::TryLockError);
            },
        }
        match self.table.stage_insert_many(rows) {
            Ok(bytes) => {
                self.phase = ManagerPhase::RecordsStaged;
                Ok(bytes)
            },
            Err(e) => {
                let none: Vec<RowIdentifier> = Vec::new();
                self.pending_log = encode_txn_entry(
                    self.next_txn_id,
                    TXN_OP_INSERT,
                    TXN_OUTCOME_FAILED,
                    &none,
                );
                self.next_txn_id = self.next_txn_id + 1;
                self.last_committed = false;
                self.phase = ManagerPhase::AwaitingLog;
                proof {
                    assert(none@ =~= Seq::<RowIdentifier>::empty());
                }
                Err(e)
            },
        }
    }

    /// Stages a single-row insert; the batch case with a one-row batch.
    pub fn stage_insert_one(&mut self, row: Vec<Value>) -> (res: Result<
        Vec<u8>,
        TableRecordInsertError,
    >)
        requires
            old(self)@.wf(),
            row@.len() == old(self)@.table.store.schema.len(),
            old(self)@.table.issued + 1 <= u64::MAX,
            old(self)@.next_txn_id < u64::MAX,
        ensures
            final(self)@.wf(),
            final(self)@.degraded == old(self)@.degraded,
            final(self)@.txn_log == old(self)@.txn_log,
            match res {
                Ok(bytes) => {
                    &&& old(self)@.phase == ManagerPhase::Idle
                    &&& !spec_unique_violation(old(self)@.table.store, seq![views_of_values(row@)])
                    &&& final(self)@.phase == ManagerPhase::RecordsStaged
                    &&& final(self)@.next_txn_id == old(self)@.next_txn_id
                    &&& spec_stage_extends(
                        old(self)@.table,
                        final(self)@.table,
                        seq![views_of_values(row@)],
                    )
                    &&& bytes@ == spec_encode_record_entries(
                        final(self)@.table.store.ids.skip(old(self)@.table.committed),
                        seq![views_of_values(row@)],
                    )
                },
                Err(e) => {
                    &&& final(self)@.table == old(self)@.table
                    &&& (e == TableRecordInsertError::TryLockError <==> old(self)@.phase
                        != ManagerPhase::Idle)
                    &&& (old(self)@.phase != ManagerPhase::Idle ==> final(self)@ == old(self)@)
                    &&& (old(self)@.phase == ManagerPhase::Idle ==> {
                        &&& e == TableRecordInsertError::ConstraintViolation
                        &&& spec_unique_violation(
                            old(self)@.table.store,
                            seq![views_of_values(row@)],
                        )
                        &&& final(self)@.phase == ManagerPhase::AwaitingLog
                        &&& !final(self)@.last_committed
                        &&& final(self)@.next_txn_id == old(self)@.next_txn_id + 1
                        &&& final(self)@.pending_log == spec_encode_txn_entry(
                            old(self)@.next_txn_id as u64,
                            TXN_OP_INSERT,
                            TXN_OUTCOME_FAILED,
                            Seq::<RowIdentifier>::empty(),
                        )
                    })
                },
            },
    {
        let mut rows: Vec<Vec<Value>> = Vec::new();
        rows.push(row);
        proof {
            assert(views_of_rows(rows@) =~= seq![views_of_values(rows@[0]@)]);
        }
        self.stage_insert_many(&rows)
    }

    /// Commits the staged rows after their records-file append succeeded,
    /// and makes the transaction-log entry describing the committed
    /// operation — identifiers included — pending.  Returns the new
    /// identifiers in insertion order.
    pub fn commit_staged(&mut self) -> (ids: Vec<RowIdentifier>)
        requires
            old(self)@.wf(),
            old(self)@.phase == ManagerPhase::RecordsStaged,
            old(self)@.next_txn_id < u64::MAX,
        ensures
            final(self)@.wf(),
            spec_committed_staged(old(self)@.table, final(self)@.table),
            ids@ == old(self)@.table.store.ids.skip(old(self)@.table.committed),
            final(self)@.phase == ManagerPhase::AwaitingLog,
            final(self)@.last_committed,
            final(self)@.degraded == old(self)@.degraded,
            final(self)@.txn_log == old(self)@.txn_log,
            final(self)@.next_txn_id == old(self)@.next_txn_id + 1,
            final(self)@.pending_log == spec_encode_txn_entry(
                old(self)@.next_txn_id as u64,
                TXN_OP_INSERT,
                TXN_OUTCOME_COMMITTED,
                ids@,
            ),
    {
        let ids = self.table.commit_staged();
        self.pending_log = encode_txn_entry(
            self.next_txn_id,
            TXN_OP_INSERT,
            TXN_OUTCOME_COMMITTED,
            &ids,
        );
        self.next_txn_id = self.next_txn_id + 1;
        self.last_committed = true;
        self.phase = ManagerPhase::AwaitingLog;
        ids
    }

    /// Rolls the staged rows back after their records-file append failed,
    /// and makes the transaction-log entry recording the failed attempt
    /// pending.  The caller surfaces the operation's
    /// [`TableRecordInsertError::IOError`] itself.
    pub fn roll_back_staged(&mut self)
        requires
            old(self)@.wf(),
            old(self)@.phase == ManagerPhase::RecordsStaged,
            old(self)@.next_txn_id < u64::MAX,
        ensures
            final(self)@.wf(),
            spec_rolled_back(old(self)@.table, final(self)@.table),
            final(self)@.phase == ManagerPhase::AwaitingLog,
            !final(self)@.last_committed,
            final(self)@.degraded == old(self)@.degraded,
            final(self)@.txn_log == old(self)@.txn_log,
            final(self)@.next_txn_id == old(self)@.next_txn_id + 1,
            final(self)@.pending_log == spec_encode_txn_entry(
                old(self)@.next_txn_id as u64,
                TXN_OP_INSERT,
                TXN_OUTCOME_FAILED,
                Seq::<RowIdentifier>::empty(),
            ),
    {
        self.table.roll_back_staged();
        let none: Vec<RowIdentifier> = Vec::new();
        self.pending_log = encode_txn_entry(
            self.next_txn_id,
            TXN_OP_INSERT,
            TXN_OUTCOME_FAILED,
            &none,
        );
        self.next_txn_id = self.next_txn_id + 1;
        self.last_committed = false;
        self.phase = ManagerPhase::AwaitingLog;
        proof {
            assert(none@ =~= Seq::<RowIdentifier>::empty());
        }
    }

    /// The transaction-log entry awaiting its write outcome.
    pub fn pending_log_entry(&self) -> (out: Vec<u8>)
        requires
            self@.wf(),
            self@.phase == ManagerPhase::AwaitingLog,
        ensures
            out@ == self@.pending_log,
    {
        let mut out: Vec<u8> = Vec::new();
        push_bytes(&mut out, self.pending_log.as_slice());
        proof {
            assert(out@ =~= self@.pending_log);
        }
        out
    }

    /// Records the outcome of the pending log write and returns to idle.
    /// A lost entry for a committed mutation leaves the data committed but
    /// marks the manager degraded; a written entry becomes part of the
    /// transaction-log file.
    pub fn note_log_write(&mut self, ok: bool)
        requires
            old(self)@.wf(),
            old(self)@.phase == ManagerPhase::AwaitingLog,
        ensures
            final(self)@.wf(),
            final(self)@.table == old(self)@.table,
            final(self)@.phase == ManagerPhase::Idle,
            final(self)@.next_txn_id == old(self)@.next_txn_id,
            ok ==> final(self)@.txn_log == old(self)@.txn_log + old(self)@.pending_log,
            !ok ==> final(self)@.txn_log == old(self)@.txn_log,
            final(self)@.degraded == (old(self)@.degraded || (!ok && old(self)@.last_committed)),
    {
        if ok {
            proof {
                self.txn_log@ = self.txn_log@ + self.pending_log@;
            }
        } else {
            if self.last_committed {
                self.degraded = true;
            }
        }
        self.pending_log = Vec::new();
        self.phase = ManagerPhase::Idle;
    }
}

} // verus!
