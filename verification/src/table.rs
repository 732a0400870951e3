//! The table: a column store bound to its durable records file.
//!
//! A mutation is staged, made durable, then finished.  `stage_insert_many`
//! checks the declared uniqueness constraints, generates one fresh
//! identifier per row, appends the rows to the columns in memory, and hands
//! back the encoded records-file entries; the embedding process appends
//! those bytes to the file.  If the append succeeded, `commit_staged` makes
//! the rows part of the committed state and returns their identifiers; if it
//! failed, `roll_back_staged` truncates every sequence back to the
//! checkpoint, so the in-memory and on-disk views never diverge.  While an
//! operation is staged the column sequences are held: a second staging
//! attempt fails with [`TableRecordInsertError::TryLockError`] instead of
//! blocking.
//!
//! The bytes confirmed durable are carried as ghost state, and
//! well-formedness pins them to be exactly the encoding of the committed
//! rows; [`lemma_replay_records_file`] then shows that replaying the file
//! from empty rebuilds the committed store.

use vstd::prelude::*;

use crate::TableRecordInsertError;
use crate::codec::{
    encode_record_entry, lemma_decode_record_entries_of_encode, lemma_encode_record_entries_concat,
    spec_decode_record_entries, spec_encode_record_entries, spec_record_entries_of,
};
use crate::identifier::{RAW_IDENTIFIER_BOUND, RowIdentifier, generate_identifier};
use crate::schema::ColumnSpec;
use crate::store::{ColumnStore, ColumnStoreView};
use crate::value::{Value, ValueView, spec_value_eq, views_of_rows, views_of_values};

verus! {

/// A table: the in-memory columns plus the model of its records file.
pub struct Table {
    store: ColumnStore,
    last_id: RowIdentifier,
    issued: u64,
    committed: usize,
    staging: bool,
    log: Ghost<Seq<u8>>,
}

/// Mathematical model of a [`Table`].
pub struct TableView {
    /// The in-memory columnar state, staged rows included.
    pub store: ColumnStoreView,
    /// The last identifier issued by this instance; never reused, not even
    /// after a rollback.
    pub last_id: RowIdentifier,
    /// How many identifiers this instance has issued.
    pub issued: int,
    /// Number of rows made durable; rows at or past this index are staged.
    pub committed: int,
    /// Whether a staged operation is in flight.
    pub staging: bool,
    /// The bytes of the records file.
    pub log: Seq<u8>,
}

impl View for Table {
    type V = TableView;

    closed spec fn view(&self) -> TableView {
        TableView {
            store: self.store@,
            last_id: self.last_id,
            issued: self.issued as int,
            committed: self.committed as int,
            staging: self.staging,
            log: self.log@,
        }
    }
}

impl TableView {
    /// Table well-formedness: the columns are length-synchronized, the
    /// identifiers are strictly increasing and all issued by this instance,
    /// the identifier space has room left, and the records file holds
    /// exactly the encoding of the committed rows.
    pub open spec fn wf(self) -> bool {
        &&& self.store.wf()
        &&& 0 <= self.committed <= self.store.nrows()
        &&& (!self.staging ==> self.committed == self.store.nrows())
        &&& forall|a: int, b: int|
            0 <= a < b < self.store.ids.len() ==> (#[trigger] self.store.ids[a]).bits < (
            #[trigger] self.store.ids[b]).bits
        &&& forall|a: int|
            0 <= a < self.store.ids.len() ==> (#[trigger] self.store.ids[a]).bits
                <= self.last_id.bits
        &&& 0 <= self.issued <= u64::MAX
        &&& self.last_id.bits <= RAW_IDENTIFIER_BOUND + self.issued
        &&& self.log == spec_encode_record_entries(
            self.store.ids.take(self.committed),
            self.store.rows().take(self.committed),
        )
    }

    /// The committed prefix of the identifier sequence.
    pub open spec fn committed_ids(self) -> Seq<RowIdentifier> {
        self.store.ids.take(self.committed)
    }

    /// The committed prefix of the rows.
    pub open spec fn committed_rows(self) -> Seq<Seq<ValueView>> {
        self.store.rows().take(self.committed)
    }
}

/// Every batch row has one value per schema column.
pub open spec fn spec_rows_width_ok(rows: Seq<Seq<ValueView>>, width: int) -> bool {
    forall|r: int| 0 <= r < rows.len() ==> (#[trigger] rows[r]).len() == width
}

/// Whether batch row `r` conflicts on column `j`: an equal value already
/// stored in that column, or an equal value earlier in the batch.
pub open spec fn spec_batch_conflict(
    v: ColumnStoreView,
    batch: Seq<Seq<ValueView>>,
    j: int,
    r: int,
) -> bool {
    ||| exists|k: int| 0 <= k < v.nrows() && #[trigger] spec_value_eq(v.cols[j][k], batch[r][j])
    ||| exists|q: int| 0 <= q < r && #[trigger] spec_value_eq(batch[q][j], batch[r][j])
}

/// Whether inserting `batch` would violate a declared uniqueness
/// constraint.
pub open spec fn spec_unique_violation(v: ColumnStoreView, batch: Seq<Seq<ValueView>>) -> bool {
    exists|j: int, r: int|
        0 <= j < v.schema.len() && v.schema[j].unique && 0 <= r < batch.len()
            && #[trigger] spec_batch_conflict(v, batch, j, r)
}

/// How a successful staging relates the new state to the old: the batch
/// rows are appended with fresh identifiers, nothing is durable yet, and
/// the committed state is untouched.
pub open spec fn spec_stage_extends(
    pre: TableView,
    post: TableView,
    batch: Seq<Seq<ValueView>>,
) -> bool {
    &&& post.staging
    &&& post.committed == pre.committed
    &&& post.log == pre.log
    &&& post.store.schema == pre.store.schema
    &&& post.store.nrows() == pre.store.nrows() + batch.len()
    &&& post.store.rows() == pre.store.rows() + batch
    &&& post.store.ids.take(pre.store.nrows()) == pre.store.ids
    &&& post.issued == pre.issued + batch.len()
    &&& forall|k: int|
        pre.store.nrows() <= k < post.store.nrows() ==> (#[trigger] post.store.ids[k]).bits
            > pre.last_id.bits
}

/// How a rollback relates the new state to the old: everything staged is
/// discarded, the committed rows and the records file stand exactly as
/// before.
pub open spec fn spec_rolled_back(pre: TableView, post: TableView) -> bool {
    &&& !post.staging
    &&& post.committed == pre.committed
    &&& post.log == pre.log
    &&& post.store.schema == pre.store.schema
    &&& post.store.ids == pre.store.ids.take(pre.committed)
    &&& post.store.rows() == pre.store.rows().take(pre.committed)
    &&& post.last_id == pre.last_id
    &&& post.issued == pre.issued
}

/// How a commit relates the new state to the old: the staged rows become
/// committed and their encoding becomes part of the records file.
pub open spec fn spec_committed_staged(pre: TableView, post: TableView) -> bool {
    &&& !post.staging
    &&& post.store == pre.store
    &&& post.last_id == pre.last_id
    &&& post.issued == pre.issued
    &&& post.committed == pre.store.nrows()
    &&& post.log == pre.log + spec_encode_record_entries(
        pre.store.ids.skip(pre.committed),
        pre.store.rows().skip(pre.committed),
    )
}

impl Table {
    /// An empty table for the given schema, with an empty records file.
    pub fn new(schema: Vec<ColumnSpec>) -> (t: Table)
        ensures
            t@.wf(),
            t@.store.schema == crate::schema::views_of_columns(schema@),
            t@.store.nrows() == 0,
            t@.committed == 0,
            !t@.staging,
            t@.log == Seq::<u8>::empty(),
            t@.issued == 0,
    {
        let store = ColumnStore::new(schema);
        let t = Table {
            store,
            last_id: RowIdentifier { bits: 0 },
            issued: 0,
            committed: 0,
            staging: false,
            log: Ghost(Seq::empty()),
        };
        proof {
            assert(t@.store.ids.take(0) =~= Seq::<RowIdentifier>::empty());
            assert(t@.store.rows().take(0) =~= Seq::<Seq<ValueView>>::empty());
        }
        t
    }

    /// Number of rows, staged rows included.
    pub fn num_rows(&self) -> (n: usize)
        requires
            self@.wf(),
        ensures
            n == self@.store.nrows(),
    {
        self.store.num_rows()
    }

    /// Number of committed (durable) rows.
    pub fn committed_rows_count(&self) -> (n: usize)
        ensures
            n == self@.committed,
    {
        self.committed
    }

    /// Whether a staged operation is in flight.
    pub fn is_staging(&self) -> (b: bool)
        ensures
            b == self@.staging,
    {
        self.staging
    }

    /// How many more identifiers this instance can issue.
    pub fn identifier_headroom(&self) -> (n: u64)
        ensures
            n == u64::MAX - self@.issued,
    {
        u64::MAX - self.issued
    }

    /// The identifier of row `r`.
    pub fn identifier_at(&self, r: usize) -> (id: RowIdentifier)
        requires
            self@.wf(),
            r < self@.store.nrows(),
        ensures
            id == self@.store.ids[r as int],
    {
        self.store.identifier_at(r)
    }

    /// The store scanned by queries.
    pub fn store(&self) -> (s: &ColumnStore)
        ensures
            s@ == self@.store,
    {
        &self.store
    }

    /// Whether inserting `rows` would violate a uniqueness constraint.
    fn unique_violation(&self, rows: &Vec<Vec<Value>>) -> (b: bool)
        requires
            self@.wf(),
            spec_rows_width_ok(views_of_rows(rows@), self@.store.schema.len() as int),
        ensures
            b == spec_unique_violation(self@.store, views_of_rows(rows@)),
    {
        let ghost v = self@.store;
        let ghost batch = views_of_rows(rows@);
        let nrows = self.store.num_rows();
        let schema_len = self.store.num_columns();
        let mut r: usize = 0;
        while r < rows.len()
            invariant
                r <= rows@.len(),
                self@.wf(),
                v == self@.store,
                batch == views_of_rows(rows@),
                batch.len() == rows@.len(),
                nrows == v.nrows(),
                schema_len == v.schema.len(),
                spec_rows_width_ok(batch, v.schema.len() as int),
                forall|jj: int, rr: int|
                    0 <= jj < v.schema.len() && v.schema[jj].unique && 0 <= rr < r
                        ==> !#[trigger] spec_batch_conflict(v, batch, jj, rr),
            decreases rows@.len() - r,
        {
            proof {
                assert(batch[r as int] == views_of_values(rows@[r as int]@));
            }
            let row = &rows[r];
            let mut j: usize = 0;
            while j < schema_len
                invariant
                    j <= schema_len,
                    r < rows@.len(),
                    self@.wf(),
                    v == self@.store,
                    batch == views_of_rows(rows@),
                    batch.len() == rows@.len(),
                    nrows == v.nrows(),
                    schema_len == v.schema.len(),
                    spec_rows_width_ok(batch, v.schema.len() as int),
                    row@ == rows@[r as int]@,
                    batch[r as int] == views_of_values(row@),
                    forall|jj: int, rr: int|
                        0 <= jj < v.schema.len() && v.schema[jj].unique && 0 <= rr < r
                            ==> !#[trigger] spec_batch_conflict(v, batch, jj, rr),
                    forall|jj: int|
                        0 <= jj < j && v.schema[jj].unique ==> !#[trigger] spec_batch_conflict(
                            v,
                            batch,
                            jj,
                            r as int,
                        ),
                decreases schema_len - j,
            {
                let schema_ref = self.store.schema();
                let is_unique = schema_ref[j].unique;
                proof {
                    assert(v.schema[j as int] == schema_ref@[j as int]@);
                }
                if is_unique {
                    let candidate = &row[j];
                    proof {
                        assert(candidate@ == batch[r as int][j as int]);
                    }
                    if self.store.column_contains(j, candidate, nrows) {
                        proof {
                            let k = choose|k: int|
                                0 <= k < nrows && spec_value_eq(
                                    #[trigger] v.cols[j as int][k],
                                    candidate@,
                                );
                            assert(spec_value_eq(v.cols[j as int][k], batch[r as int][j as int]));
                            assert(spec_batch_conflict(v, batch, j as int, r as int));
                            assert(spec_unique_violation(v, batch));
                        }
                        return true;
                    }
                    let mut q: usize = 0;
                    while q < r
                        invariant
                            q <= r,
                            r < rows@.len(),
                            batch == views_of_rows(rows@),
                            batch.len() == rows@.len(),
                            j < schema_len,
                            v == self@.store,
                            schema_len == v.schema.len(),
                            v.schema[j as int].unique,
                            spec_rows_width_ok(batch, schema_len as int),
                            candidate@ == batch[r as int][j as int],
                            forall|qq: int|
                                0 <= qq < q ==> !spec_value_eq(
                                    #[trigger] batch[qq][j as int],
                                    batch[r as int][j as int],
                                ),
                        decreases r - q,
                    {
                        proof {
                            assert(batch[q as int] == views_of_values(rows@[q as int]@));
                        }
                        if rows[q][j].eq_value(candidate) {
                            proof {
                                assert(spec_value_eq(
                                    batch[q as int][j as int],
                                    batch[r as int][j as int],
                                ));
                                assert(spec_batch_conflict(v, batch, j as int, r as int));
                                assert(spec_unique_violation(v, batch));
                            }
                            return true;
                        }
                        q += 1;
                    }
                    proof {
                        assert(!spec_batch_conflict(v, batch, j as int, r as int));
                    }
                }
                j += 1;
            }
            r += 1;
        }
        proof {
            assert(!spec_unique_violation(v, batch));
        }
        false
    }

    /// Stages a batch insert: checks the uniqueness constraints, generates
    /// one fresh identifier per row, appends the rows to the columns, and
    /// returns the records-file bytes the caller must append durably before
    /// finishing with [`Table::commit_staged`] or, on a failed append,
    /// [`Table::roll_back_staged`].
    ///
    /// Fails with `TryLockError` exactly when a staged operation is already
    /// in flight (the column sequences are held), and with
    /// `ConstraintViolation` exactly when a declared uniqueness constraint
    /// would be violated; in both cases nothing changes.
    ///
    /// Callers must hand in rows with one value per schema column and leave
    /// room in the identifier space; an unverified caller checks the width
    /// against [`ColumnStore::num_columns`] and the room against
    /// [`Table::identifier_headroom`] first.
    pub fn stage_insert_many(&mut self, rows: &Vec<Vec<Value>>) -> (res: Result<
        Vec<u8>,
        TableRecordInsertError,
    >)
        requires
            old(self)@.wf(),
            spec_rows_width_ok(views_of_rows(rows@), old(self)@.store.schema.len() as int),
            old(self)@.issued + rows@.len() <= u64::MAX,
        ensures
            final(self)@.wf(),
            match res {
                Ok(bytes) => {
                    &&& !old(self)@.staging
                    &&& !spec_unique_violation(old(self)@.store, views_of_rows(rows@))
                    &&& spec_stage_extends(old(self)@, final(self)@, views_of_rows(rows@))
                    &&& bytes@ == spec_encode_record_entries(
                        final(self)@.store.ids.skip(old(self)@.committed),
                        views_of_rows(rows@),
                    )
                },
                Err(e) => {
                    &&& final(self)@ == old(self)@
                    &&& (old(self)@.staging || spec_unique_violation(
                        old(self)@.store,
                        views_of_rows(rows@),
                    ))
                    &&& (e == TableRecordInsertError::TryLockError <==> old(self)@.staging)
                    &&& (e == TableRecordInsertError::ConstraintViolation <==> !old(self)@.staging
                        && spec_unique_violation(old(self)@.store, views_of_rows(rows@)))
                },
            },
    {
        if self.staging {
            return Err(TableRecordInsertError::TryLockError);
        }
        if self.unique_violation(rows) {
            return Err(TableRecordInsertError::ConstraintViolation);
        }
        let ghost pre = self@;
        let ghost batch = views_of_rows(rows@);
        self.staging = true;
        let checkpoint = self.store.num_rows();
        let mut bytes: Vec<u8> = Vec::new();
        let mut i: usize = 0;
        while i < rows.len()
            invariant
                i <= rows@.len(),
                batch == views_of_rows(rows@),
                batch.len() == rows@.len(),
                spec_rows_width_ok(batch, pre.store.schema.len() as int),
                pre.wf(),
                !pre.staging,
                pre.committed == pre.store.nrows(),
                checkpoint == pre.store.nrows(),
                pre.issued + rows@.len() <= u64::MAX,
                self@.staging,
                self@.committed == pre.committed,
                self@.log == pre.log,
                self@.issued == pre.issued + i,
                self@.store.wf(),
                self@.store.schema == pre.store.schema,
                self@.store.nrows() == checkpoint + i,
                self@.store.rows() == pre.store.rows() + batch.take(i as int),
                self@.store.ids.take(checkpoint as int) == pre.store.ids,
                forall|a: int, b: int|
                    0 <= a < b < self@.store.ids.len() ==> (#[trigger] self@.store.ids[a]).bits < (
                    #[trigger] self@.store.ids[b]).bits,
                forall|a: int|
                    0 <= a < self@.store.ids.len() ==> (#[trigger] self@.store.ids[a]).bits
                        <= self@.last_id.bits,
                forall|k: int|
                    checkpoint <= k < self@.store.nrows() ==> (#[trigger] self@.store.ids[k]).bits
                        > pre.last_id.bits,
                self@.last_id.bits <= RAW_IDENTIFIER_BOUND + self@.issued,
                pre.last_id.bits <= self@.last_id.bits,
                bytes@ == spec_encode_record_entries(
                    self@.store.ids.skip(checkpoint as int),
                    batch.take(i as int),
                ),
            decreases rows@.len() - i,
        {
            proof {
                assert(self@.last_id.bits <= RAW_IDENTIFIER_BOUND + u64::MAX);
                assert(RAW_IDENTIFIER_BOUND + u64::MAX < u128::MAX);
            }
            let id = generate_identifier(self.last_id);
            self.last_id = id;
            self.issued = self.issued + 1;
            let ghost ids_before = self@.store.ids;
            proof {
                assert(batch[i as int] == views_of_values(rows@[i as int]@));
            }
            self.store.push_row(id, &rows[i]);
            encode_record_entry(id, false, &rows[i], &mut bytes);
            proof {
                let new_ids = self@.store.ids;
                assert(new_ids == ids_before.push(id));
                assert(new_ids.take(checkpoint as int) =~= ids_before.take(checkpoint as int));
                assert(self@.store.rows() =~= pre.store.rows() + batch.take(i as int + 1));
                // the freshly issued identifier is above every stored one
                assert forall|a: int, b: int|
                    0 <= a < b < new_ids.len() implies (#[trigger] new_ids[a]).bits < (
                #[trigger] new_ids[b]).bits by {
                    if b == new_ids.len() - 1 {
                        assert(new_ids[a] == ids_before[a]);
                    }
                }
                // the staged entries encode the staged rows
                let pending_before = ids_before.skip(checkpoint as int);
                let pending_after = new_ids.skip(checkpoint as int);
                assert(pending_after =~= pending_before + seq![id]);
                assert(batch.take(i as int + 1) =~= batch.take(i as int) + seq![batch[i as int]]);
                lemma_encode_record_entries_concat(
                    pending_before,
                    batch.take(i as int),
                    seq![id],
                    seq![batch[i as int]],
                );
                assert(seq![id].skip(1) =~= Seq::<RowIdentifier>::empty());
                assert(seq![batch[i as int]].skip(1) =~= Seq::<Seq<ValueView>>::empty());
                assert(spec_encode_record_entries(Seq::<RowIdentifier>::empty(), Seq::<
                    Seq<ValueView>,
                >::empty()) =~= Seq::<u8>::empty());
                assert(spec_encode_record_entries(seq![id], seq![batch[i as int]])
                    =~= crate::codec::spec_encode_record_entry(id, false, batch[i as int]));
                assert(bytes@ =~= spec_encode_record_entries(
                    pending_after,
                    batch.take(i as int + 1),
                ));
            }
            i += 1;
        }
        proof {
            assert(batch.take(batch.len() as int) =~= batch);
            // the committed prefix, hence the log clause of wf, is untouched
            assert(self@.store.ids.take(pre.committed) =~= pre.store.ids.take(pre.committed));
            assert(self@.store.rows().take(pre.committed) =~= pre.store.rows().take(pre.committed));
        }
        Ok(bytes)
    }

    /// Stages a single-row insert; the batch case with a one-row batch.
    pub fn stage_insert_one(&mut self, row: Vec<Value>) -> (res: Result<
        Vec<u8>,
        TableRecordInsertError,
    >)
        requires
            old(self)@.wf(),
            row@.len() == old(self)@.store.schema.len(),
            old(self)@.issued + 1 <= u64::MAX,
        ensures
            final(self)@.wf(),
            match res {
                Ok(bytes) => {
                    &&& !old(self)@.staging
                    &&& !spec_unique_violation(old(self)@.store, seq![views_of_values(row@)])
                    &&& spec_stage_extends(
                        old(self)@,
                        final(self)@,
                        seq![views_of_values(row@)],
                    )
                    &&& bytes@ == spec_encode_record_entries(
                        final(self)@.store.ids.skip(old(self)@.committed),
                        seq![views_of_values(row@)],
                    )
                },
                Err(e) => {
                    &&& final(self)@ == old(self)@
                    &&& (old(self)@.staging || spec_unique_violation(
                        old(self)@.store,
                        seq![views_of_values(row@)],
                    ))
                    &&& (e == TableRecordInsertError::TryLockError <==> old(self)@.staging)
                    &&& (e == TableRecordInsertError::ConstraintViolation <==> !old(self)@.staging
                        && spec_unique_violation(old(self)@.store, seq![views_of_values(row@)]))
                },
            },
    {
        let mut rows: Vec<Vec<Value>> = Vec::new();
        rows.push(row);
        proof {
            assert(views_of_rows(rows@) =~= seq![views_of_values(rows@[0]@)]);
        }
        self.stage_insert_many(&rows)
    }

    /// Commits the staged rows after their durable append succeeded: they
    /// become part of the committed state, the records-file model grows by
    /// exactly the bytes that were staged, and their identifiers are
    /// returned in insertion order.
    pub fn commit_staged(&mut self) -> (ids: Vec<RowIdentifier>)
        requires
            old(self)@.wf(),
            old(self)@.staging,
        ensures
            final(self)@.wf(),
            spec_committed_staged(old(self)@, final(self)@),
            ids@ == old(self)@.store.ids.skip(old(self)@.committed),
    {
        let ghost pre = self@;
        let n = self.store.num_rows();
        let mut out: Vec<RowIdentifier> = Vec::new();
        let mut k: usize = self.committed;
        while k < n
            invariant
                pre.committed <= k <= n,
                pre.wf(),
                self@ == pre,
                n == pre.store.nrows(),
                out@ == pre.store.ids.subrange(pre.committed, k as int),
            decreases n - k,
        {
            let id = self.store.identifier_at(k);
            out.push(id);
            proof {
                assert(pre.store.ids.subrange(pre.committed, k as int + 1) =~= pre.store.ids
                    .subrange(pre.committed, k as int).push(pre.store.ids[k as int]));
            }
            k += 1;
        }
        self.committed = n;
        self.staging = false;
        proof {
            let pending_ids = pre.store.ids.skip(pre.committed);
            let pending_rows = pre.store.rows().skip(pre.committed);
            self.log@ = pre.log + spec_encode_record_entries(pending_ids, pending_rows);
            lemma_encode_record_entries_concat(
                pre.store.ids.take(pre.committed),
                pre.store.rows().take(pre.committed),
                pending_ids,
                pending_rows,
            );
            assert(pre.store.ids.take(pre.committed) + pending_ids =~= pre.store.ids);
            assert(pre.store.rows().take(pre.committed) + pending_rows =~= pre.store.rows());
            assert(self@.store.ids.take(self@.committed) =~= self@.store.ids);
            assert(self@.store.rows().take(self@.committed) =~= self@.store.rows());
            assert(out@ =~= pending_ids);
        }
        out
    }

    /// Rolls the staged rows back after their durable append failed: every
    /// column and the identifier sequence are truncated to the checkpoint,
    /// so the state is exactly what it was before the staging, and the
    /// records file is untouched.  The discarded identifiers are not
    /// reused.
    pub fn roll_back_staged(&mut self)
        requires
            old(self)@.wf(),
            old(self)@.staging,
        ensures
            final(self)@.wf(),
            spec_rolled_back(old(self)@, final(self)@),
    {
        let ghost pre = self@;
        let cp = self.committed;
        self.store.truncate_rows(cp);
        self.staging = false;
        proof {
            assert forall|a: int, b: int|
                0 <= a < b < self@.store.ids.len() implies (#[trigger] self@.store.ids[a]).bits < (
            #[trigger] self@.store.ids[b]).bits by {
                assert(self@.store.ids[a] == pre.store.ids[a]);
                assert(self@.store.ids[b] == pre.store.ids[b]);
            }
            assert forall|a: int|
                0 <= a < self@.store.ids.len() implies (#[trigger] self@.store.ids[a]).bits
                <= self@.last_id.bits by {
                assert(self@.store.ids[a] == pre.store.ids[a]);
            }
            assert(self@.store.ids.take(self@.committed) =~= pre.store.ids.take(pre.committed));
            assert(self@.store.rows().take(self@.committed) =~= pre.store.rows().take(
                pre.committed,
            ));
        }
    }
}

/// All column sequences and the identifier sequence of a well-formed table
/// have exactly the same length, staged rows included.
pub proof fn lemma_columns_synchronized(v: TableView)
    requires
        v.wf(),
    ensures
        forall|j: int|
            0 <= j < v.store.cols.len() ==> (#[trigger] v.store.cols[j]).len()
                == v.store.ids.len(),
        v.store.cols.len() == v.store.schema.len(),
{
}

/// Identifiers issued within one table are pairwise distinct, even across
/// rolled-back operations.
pub proof fn lemma_identifiers_distinct(v: TableView)
    requires
        v.wf(),
    ensures
        forall|a: int, b: int|
            0 <= a < v.store.ids.len() && 0 <= b < v.store.ids.len() && a != b
                ==> (#[trigger] v.store.ids[a]).bits != (#[trigger] v.store.ids[b]).bits,
{
    assert forall|a: int, b: int|
        0 <= a < v.store.ids.len() && 0 <= b < v.store.ids.len() && a != b implies (
    #[trigger] v.store.ids[a]).bits != (#[trigger] v.store.ids[b]).bits by {
        if a < b {
            assert(v.store.ids[a].bits < v.store.ids[b].bits);
        } else {
            assert(v.store.ids[b].bits < v.store.ids[a].bits);
        }
    }
}

/// A failed durable append makes the whole operation invisible: staging a
/// batch and rolling it back leaves every column, the identifier sequence,
/// and the records file exactly as they were — whatever the batch was, and
/// wherever in the batch the failure struck.
pub proof fn lemma_failed_insert_rolls_back(
    pre: TableView,
    staged: TableView,
    post: TableView,
    batch: Seq<Seq<ValueView>>,
)
    requires
        pre.wf(),
        !pre.staging,
        spec_stage_extends(pre, staged, batch),
        spec_rolled_back(staged, post),
    ensures
        post.store.ids == pre.store.ids,
        post.store.rows() == pre.store.rows(),
        post.committed == pre.committed,
        post.log == pre.log,
{
    assert(staged.store.ids.take(staged.committed) =~= pre.store.ids);
    assert((pre.store.rows() + batch).take(pre.committed) =~= pre.store.rows());
}

/// The records file is the source of truth: replaying the bytes a
/// well-formed table has made durable yields exactly its committed rows
/// with their identifiers, in order.
pub proof fn lemma_replay_records_file(v: TableView)
    requires
        v.wf(),
    ensures
        spec_decode_record_entries(v.log, v.store.schema.len() as int) == Some(
            spec_record_entries_of(v.committed_ids(), v.committed_rows()),
        ),
{
    let ids = v.committed_ids();
    let rows = v.committed_rows();
    assert forall|r: int| 0 <= r < rows.len() implies (#[trigger] rows[r]).len()
        == v.store.schema.len() by {
        assert(rows[r] == v.store.row_at(r));
    }
    assert forall|r: int|
        0 <= r < rows.len() implies crate::codec::spec_row_texts_ok(#[trigger] rows[r]) by {
        assert(rows[r] == v.store.row_at(r));
        assert forall|k: int|
            0 <= k < rows[r].len() implies crate::codec::spec_text_len_ok(
            #[trigger] rows[r][k],
        ) by {
            assert(rows[r][k] == v.store.cols[k][r]);
        }
    }
    lemma_decode_record_entries_of_encode(ids, rows, v.store.schema.len() as int);
}

} // verus!
