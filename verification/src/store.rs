//! In-memory columnar storage: one growable sequence per schema column plus
//! a parallel identifier sequence, all kept length-synchronized.

use vstd::prelude::*;

use crate::codec::{spec_row_texts_ok, spec_text_len_ok};
use crate::identifier::RowIdentifier;
use crate::schema::{ColumnSpec, ColumnSpecView, views_of_columns};
use crate::value::{Value, ValueView, spec_value_eq, views_of_values};

verus! {

/// The in-memory state of one table: its schema, the identifier sequence,
/// and one value sequence per column.
pub struct ColumnStore {
    schema: Vec<ColumnSpec>,
    ids: Vec<RowIdentifier>,
    cols: Vec<Vec<Value>>,
}

/// Mathematical model of a [`ColumnStore`].
pub struct ColumnStoreView {
    pub schema: Seq<ColumnSpecView>,
    pub ids: Seq<RowIdentifier>,
    pub cols: Seq<Seq<ValueView>>,
}

impl View for ColumnStore {
    type V = ColumnStoreView;

    closed spec fn view(&self) -> ColumnStoreView {
        ColumnStoreView {
            schema: views_of_columns(self.schema@),
            ids: self.ids@,
            cols: self.cols@.map_values(|c: Vec<Value>| views_of_values(c@)),
        }
    }
}

impl ColumnStoreView {
    /// The central invariant: every column sequence has exactly one entry
    /// per identifier, and every stored text fits the encoding's length
    /// prefix.
    pub open spec fn wf(self) -> bool {
        &&& self.cols.len() == self.schema.len()
        &&& forall|j: int|
            0 <= j < self.cols.len() ==> (#[trigger] self.cols[j]).len() == self.ids.len()
        &&& forall|j: int, r: int|
            0 <= j < self.cols.len() && 0 <= r < self.ids.len() ==> spec_text_len_ok(
                #[trigger] self.cols[j][r],
            )
    }

    /// Number of rows.
    pub open spec fn nrows(self) -> int {
        self.ids.len() as int
    }

    /// Row `r` as the tuple of values at index `r` across all columns.
    pub open spec fn row_at(self, r: int) -> Seq<ValueView> {
        Seq::new(self.schema.len(), |j: int| self.cols[j][r])
    }

    /// All rows in insertion order.
    pub open spec fn rows(self) -> Seq<Seq<ValueView>> {
        Seq::new(self.ids.len(), |r: int| self.row_at(r))
    }
}

/// Pushing one full-width row appends it, as a row, to the row-major view
/// and preserves well-formedness.
pub proof fn lemma_rows_push(
    pre: ColumnStoreView,
    post: ColumnStoreView,
    id: RowIdentifier,
    row: Seq<ValueView>,
)
    requires
        pre.wf(),
        row.len() == pre.schema.len(),
        spec_row_texts_ok(row),
        post.schema == pre.schema,
        post.ids == pre.ids.push(id),
        post.cols.len() == pre.cols.len(),
        forall|j: int| 0 <= j < pre.cols.len() ==> post.cols[j] == pre.cols[j].push(row[j]),
    ensures
        post.wf(),
        post.rows() == pre.rows().push(row),
{
    assert forall|r: int| 0 <= r < pre.nrows() implies post.row_at(r) == pre.row_at(r) by {
        assert forall|j: int| 0 <= j < pre.schema.len() implies post.cols[j][r]
            == pre.cols[j][r] by {
            assert(post.cols[j] == pre.cols[j].push(row[j]));
        }
        assert(post.row_at(r) =~= pre.row_at(r));
    }
    assert(post.row_at(pre.nrows()) =~= row);
    assert(post.rows() =~= pre.rows().push(row));
}

/// Truncating every sequence to `n` keeps the first `n` rows exactly and
/// preserves well-formedness.
pub proof fn lemma_rows_truncate(pre: ColumnStoreView, post: ColumnStoreView, n: int)
    requires
        pre.wf(),
        0 <= n <= pre.nrows(),
        post.schema == pre.schema,
        post.ids == pre.ids.take(n),
        post.cols.len() == pre.cols.len(),
        forall|j: int| 0 <= j < pre.cols.len() ==> post.cols[j] == pre.cols[j].take(n),
    ensures
        post.wf(),
        post.rows() == pre.rows().take(n),
{
    assert forall|r: int| 0 <= r < n implies post.row_at(r) == pre.row_at(r) by {
        assert forall|j: int| 0 <= j < pre.schema.len() implies post.cols[j][r]
            == pre.cols[j][r] by {
            assert(post.cols[j] == pre.cols[j].take(n));
        }
        assert(post.row_at(r) =~= pre.row_at(r));
    }
    assert(post.rows() =~= pre.rows().take(n));
}

/// A mutable borrow of column `j`.
fn col_mut(cols: &mut Vec<Vec<Value>>, j: usize) -> (c: &mut Vec<Value>)
    requires
        j < old(cols)@.len(),
    ensures
        *c == old(cols)@[j as int],
        final(cols)@ == old(cols)@.update(j as int, *final(c)),
{
    &mut cols[j]
}

impl Value {
    /// A value equal to `self`.  Observing the byte length of a text value
    /// on the way establishes that its UTF-8 encoding fits in memory, hence
    /// in the records file's 8-byte length prefix.
    pub fn duplicate(&self) -> (r: Value)
        ensures
            r@ == self@,
            spec_text_len_ok(self@),
    {
        match self {
            Value::U64(x) => Value::U64(*x),
            Value::U8(x) => Value::U8(*x),
            Value::Text(s) => {
                let bs = s.as_str().as_bytes();
                let n = bs.len();
                proof {
                    assert(vstd::utf8::encode_utf8(s@).len() == n);
                }
                Value::Text(s.clone())
            },
        }
    }
}

impl ColumnStore {
    /// An empty store for the given schema.
    pub fn new(schema: Vec<ColumnSpec>) -> (s: ColumnStore)
        ensures
            s@.wf(),
            s@.schema == views_of_columns(schema@),
            s@.ids == Seq::<RowIdentifier>::empty(),
            s@.nrows() == 0,
    {
        let n = schema.len();
        let mut cols: Vec<Vec<Value>> = Vec::new();
        let mut j: usize = 0;
        while j < n
            invariant
                j <= n,
                cols@.len() == j,
                forall|k: int| 0 <= k < j ==> (#[trigger] cols@[k])@.len() == 0,
            decreases n - j,
        {
            cols.push(Vec::new());
            j += 1;
        }
        let s = ColumnStore { schema, ids: Vec::new(), cols };
        proof {
            assert forall|k: int| 0 <= k < s@.cols.len() implies (#[trigger] s@.cols[k]).len()
                == 0 by {}
        }
        s
    }

    /// Number of rows currently stored.
    pub fn num_rows(&self) -> (n: usize)
        requires
            self@.wf(),
        ensures
            n == self@.nrows(),
    {
        self.ids.len()
    }

    /// Number of columns.
    pub fn num_columns(&self) -> (n: usize)
        ensures
            n == self@.schema.len(),
    {
        self.schema.len()
    }

    /// The column declarations.
    pub fn schema(&self) -> (s: &Vec<ColumnSpec>)
        ensures
            views_of_columns(s@) == self@.schema,
    {
        &self.schema
    }

    /// The identifier at row `r`.
    pub fn identifier_at(&self, r: usize) -> (id: RowIdentifier)
        requires
            self@.wf(),
            r < self@.nrows(),
        ensures
            id == self@.ids[r as int],
    {
        self.ids[r]
    }

    /// The value of column `j` at row `r`.
    pub fn value_at(&self, j: usize, r: usize) -> (v: &Value)
        requires
            self@.wf(),
            j < self@.schema.len(),
            r < self@.nrows(),
        ensures
            v@ == self@.cols[j as int][r as int],
    {
        proof {
            assert(self@.cols[j as int] == views_of_values(self.cols@[j as int]@));
        }
        &self.cols[j][r]
    }

    /// Whether any of the first `upto` entries of column `j` equals `v`.
    pub fn column_contains(&self, j: usize, v: &Value, upto: usize) -> (r: bool)
        requires
            self@.wf(),
            j < self@.schema.len(),
            upto <= self@.nrows(),
        ensures
            r == exists|k: int|
                0 <= k < upto && spec_value_eq(#[trigger] self@.cols[j as int][k], v@),
    {
        let mut k: usize = 0;
        while k < upto
            invariant
                k <= upto,
                upto <= self@.nrows(),
                self@.wf(),
                j < self@.schema.len(),
                forall|m: int| 0 <= m < k ==> !spec_value_eq(#[trigger] self@.cols[j as int][m], v@),
            decreases upto - k,
        {
            if self.value_at(j, k).eq_value(v) {
                return true;
            }
            k += 1;
        }
        false
    }

    /// Appends one full-width row with its identifier.
    pub fn push_row(&mut self, id: RowIdentifier, row: &Vec<Value>)
        requires
            old(self)@.wf(),
            row@.len() == old(self)@.schema.len(),
        ensures
            final(self)@.wf(),
            final(self)@.schema == old(self)@.schema,
            final(self)@.ids == old(self)@.ids.push(id),
            final(self)@.rows() == old(self)@.rows().push(views_of_values(row@)),
            final(self)@.nrows() == old(self)@.nrows() + 1,
    {
        let ghost pre = self@;
        let ghost rv = views_of_values(row@);
        self.ids.push(id);
        let n = self.cols.len();
        let mut j: usize = 0;
        while j < n
            invariant
                j <= n,
                pre.wf(),
                n == pre.cols.len(),
                row@.len() == pre.schema.len(),
                rv == views_of_values(row@),
                rv.len() == row@.len(),
                self.schema@ == old(self).schema@,
                self.ids@ == pre.ids.push(id),
                self.cols@.len() == n,
                forall|k: int| 0 <= k < j ==> spec_text_len_ok(#[trigger] rv[k]),
                forall|k: int|
                    j <= k < n ==> views_of_values((#[trigger] self.cols@[k])@) == pre.cols[k],
                forall|k: int|
                    0 <= k < j ==> views_of_values((#[trigger] self.cols@[k])@) == pre.cols[k].push(
                        rv[k],
                    ),
            decreases n - j,
        {
            let v = row[j].duplicate();
            col_mut(&mut self.cols, j).push(v);
            proof {
                assert(views_of_values(self.cols@[j as int]@) =~= pre.cols[j as int].push(
                    rv[j as int],
                ));
            }
            j += 1;
        }
        proof {
            lemma_rows_push(pre, self@, id, rv);
        }
    }

    /// Discards every row from index `n` on, restoring the state of the
    /// checkpoint `n`.
    pub fn truncate_rows(&mut self, n: usize)
        requires
            old(self)@.wf(),
            n <= old(self)@.nrows(),
        ensures
            final(self)@.wf(),
            final(self)@.schema == old(self)@.schema,
            final(self)@.ids == old(self)@.ids.take(n as int),
            final(self)@.rows() == old(self)@.rows().take(n as int),
            final(self)@.nrows() == n,
    {
        let ghost pre = self@;
        self.ids.truncate(n);
        let ncols = self.cols.len();
        let mut j: usize = 0;
        while j < ncols
            invariant
                j <= ncols,
                ncols == pre.cols.len(),
                n <= pre.nrows(),
                self.schema@ == old(self).schema@,
                self.ids@ == pre.ids.take(n as int),
                self.cols@.len() == ncols,
                pre.wf(),
                forall|k: int|
                    j <= k < ncols ==> views_of_values((#[trigger] self.cols@[k])@) == pre.cols[k],
                forall|k: int|
                    0 <= k < j ==> views_of_values((#[trigger] self.cols@[k])@) == pre.cols[k].take(
                        n as int,
                    ),
            decreases ncols - j,
        {
            proof {
                assert(views_of_values(self.cols@[j as int]@) == pre.cols[j as int]);
                assert(self.cols@[j as int]@.len() == pre.cols[j as int].len());
            }
            col_mut(&mut self.cols, j).truncate(n);
            proof {
                assert(views_of_values(self.cols@[j as int]@) =~= pre.cols[j as int].take(
                    n as int,
                ));
            }
            j += 1;
        }
        proof {
            lemma_rows_truncate(pre, self@, n as int);
        }
    }
}

} // verus!
