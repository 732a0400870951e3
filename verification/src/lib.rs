//! An embedded, column-oriented table engine with write-ahead transaction
//! logging.
//!
//! Each table stores one growable sequence per schema column plus a parallel
//! sequence of generated row identifiers; the central invariant is that all of
//! these sequences always have the same length.  Mutations are staged in
//! memory, encoded as append-only records-file entries for a caller to make
//! durable, and either committed or rolled back to the pre-operation
//! checkpoint, so the in-memory store and the durable log never diverge.
//! A transaction manager wraps every mutation with an audit-log entry.
//! Queries are a single first-match primitive: a linear scan in insertion
//! order under a conjunction of per-column predicates.
//!
//! File handling — creating table directories, holding the exclusive
//! per-table file locks, and appending the encoded bytes — is left to the
//! embedding process; this crate owns every decision about what those bytes
//! are and what state follows from each write outcome.

use vstd::prelude::*;

pub mod codec;
pub mod identifier;
pub mod query;
pub mod schema;
pub mod store;
pub mod table;
pub mod txn;
pub mod value;

pub use identifier::RowIdentifier;
pub use query::CompareOp;
pub use query::Predicate;
pub use schema::ColumnSpec;
pub use store::ColumnStore;
pub use table::Table;
pub use txn::ManagerPhase;
pub use txn::TransactionManager;
pub use value::Value;

verus! {

/// Error produced by table-level operations that fail on the durable file.
#[derive(Clone, Copy, Debug, PartialEq, Eq, Structural)]
pub enum TableError {
    IOError,
}

/// Error produced by a failed record insertion.
#[derive(Clone, Copy, Debug, PartialEq, Eq, Structural)]
pub enum TableRecordInsertError {
    /// The durable append to the records file failed; the in-memory store was
    /// rolled back to its pre-operation state.
    IOError,
    /// A column or identifier sequence could not be claimed without blocking:
    /// a previously staged operation is still in flight.
    TryLockError,
    /// A uniqueness constraint declared on a column would be violated; the
    /// operation was rejected with no state change.
    ConstraintViolation,
}

/// Error produced while opening a table.
#[derive(Clone, Copy, Debug, PartialEq, Eq, Structural)]
pub enum TableInitializationError {
    IOError,
    /// Another live table instance already holds the exclusive write lock on
    /// the records file.
    LockContention,
}

/// Error produced while opening a transaction manager.
#[derive(Clone, Copy, Debug, PartialEq, Eq, Structural)]
pub enum TransactionManagerInitializationError {
    IOError,
    /// Another live instance already holds one of the exclusive file locks.
    LockContention,
}

} // verus!
