//! The first-match query primitive: a linear scan of the store in insertion
//! order under a conjunction of per-column predicates, projecting named
//! columns of the first qualifying row.

use vstd::prelude::*;

use crate::schema::{find_column, spec_column_index};
use crate::store::{ColumnStore, ColumnStoreView};
use crate::table::Table;
use crate::txn::TransactionManager;
use crate::value::{Value, ValueView, spec_value_eq, spec_value_lt, views_of_values};

verus! {

/// How a predicate compares a column value against its operand.
#[derive(Clone, Copy, Debug, PartialEq, Eq, Structural)]
pub enum CompareOp {
    Eq,
    Lt,
    Gt,
}

/// One predicate: the value of column `column` compared against `rhs`.
#[derive(Debug, Clone)]
pub struct Predicate {
    pub column: String,
    pub op: CompareOp,
    pub rhs: Value,
}

/// Mathematical model of a [`Predicate`].
pub struct PredicateView {
    pub column: Seq<char>,
    pub op: CompareOp,
    pub rhs: ValueView,
}

impl View for Predicate {
    type V = PredicateView;

    open spec fn view(&self) -> PredicateView {
        PredicateView { column: self.column@, op: self.op, rhs: self.rhs@ }
    }
}

impl Predicate {
    /// A predicate comparing column `column` against `rhs`.
    pub fn new(column: String, op: CompareOp, rhs: Value) -> (p: Predicate)
        ensures
            p@.column == column@,
            p@.op == op,
            p@.rhs == rhs@,
    {
        Predicate { column, op, rhs }
    }
}

/// The models of a sequence of predicates.
pub open spec fn views_of_predicates(s: Seq<Predicate>) -> Seq<PredicateView> {
    s.map_values(|p: Predicate| p@)
}

/// The models of a sequence of column names.
pub open spec fn views_of_names(s: Seq<String>) -> Seq<Seq<char>> {
    s.map_values(|n: String| n@)
}

/// Whether `a op b` holds.
pub open spec fn spec_compare(op: CompareOp, a: ValueView, b: ValueView) -> bool {
    match op {
        CompareOp::Eq => spec_value_eq(a, b),
        CompareOp::Lt => spec_value_lt(a, b),
        CompareOp::Gt => spec_value_lt(b, a),
    }
}

/// Evaluates `a op b`.
pub fn compare_values(op: CompareOp, a: &Value, b: &Value) -> (r: bool)
    ensures
        r == spec_compare(op, a@, b@),
{
    match op {
        CompareOp::Eq => a.eq_value(b),
        CompareOp::Lt => a.lt_value(b),
        CompareOp::Gt => b.lt_value(a),
    }
}

/// Whether row `r` satisfies predicate `p`: the named column exists and its
/// value at row `r` compares true against the operand.  A predicate naming
/// an unknown column holds of no row.
pub open spec fn spec_pred_holds(v: ColumnStoreView, r: int, p: PredicateView) -> bool {
    match spec_column_index(v.schema, p.column) {
        Some(j) => spec_compare(p.op, v.cols[j][r], p.rhs),
        None => false,
    }
}

/// Whether row `r` satisfies every predicate of the conjunction.
pub open spec fn spec_row_matches(v: ColumnStoreView, r: int, preds: Seq<PredicateView>) -> bool {
    forall|k: int| 0 <= k < preds.len() ==> spec_pred_holds(v, r, #[trigger] preds[k])
}

/// Index of the first row at or after `from` satisfying every predicate.
pub open spec fn spec_first_match_from(
    v: ColumnStoreView,
    preds: Seq<PredicateView>,
    from: int,
) -> Option<int>
    decreases v.nrows() - from,
{
    if from < 0 || from >= v.nrows() {
        None
    } else if spec_row_matches(v, from, preds) {
        Some(from)
    } else {
        spec_first_match_from(v, preds, from + 1)
    }
}

/// Index of the first row, in insertion order, satisfying every predicate.
pub open spec fn spec_first_match_index(v: ColumnStoreView, preds: Seq<PredicateView>) -> Option<
    int,
> {
    spec_first_match_from(v, preds, 0)
}

/// Projection of row `r` onto the named columns, or `None` if some name is
/// not a column of the schema.
pub open spec fn spec_project(v: ColumnStoreView, r: int, proj: Seq<Seq<char>>) -> Option<
    Seq<ValueView>,
> {
    if forall|i: int| 0 <= i < proj.len() ==> spec_column_index(v.schema, #[trigger] proj[i]) is Some {
        Some(
            Seq::new(
                proj.len(),
                |i: int| v.cols[spec_column_index(v.schema, proj[i])->Some_0][r],
            ),
        )
    } else {
        None
    }
}

/// What the query as a whole returns: the projection of the first
/// qualifying row, `None` when no row qualifies or a projected name is
/// unknown.  Never an error.
pub open spec fn spec_first_match(
    v: ColumnStoreView,
    proj: Seq<Seq<char>>,
    preds: Seq<PredicateView>,
) -> Option<Seq<ValueView>> {
    match spec_first_match_index(v, preds) {
        Some(r) => spec_project(v, r, proj),
        None => None,
    }
}

/// The query picks the first qualifying row in insertion order: the index
/// it yields qualifies and no earlier row does, and it yields no index only
/// when no row qualifies at all.
pub proof fn lemma_first_match_from_is_least(
    v: ColumnStoreView,
    preds: Seq<PredicateView>,
    from: int,
)
    requires
        0 <= from <= v.nrows(),
    ensures
        match spec_first_match_from(v, preds, from) {
            Some(r) => from <= r < v.nrows() && spec_row_matches(v, r, preds) && (forall|q: int|
                from <= q < r ==> !spec_row_matches(v, q, preds)),
            None => forall|q: int| from <= q < v.nrows() ==> !spec_row_matches(v, q, preds),
        },
    decreases v.nrows() - from,
{
    if from < v.nrows() && !spec_row_matches(v, from, preds) {
        lemma_first_match_from_is_least(v, preds, from + 1);
    }
}

/// The law of the query: it returns the first qualifying row in insertion
/// order, never a later one, and reports no match exactly when no row
/// qualifies.
pub proof fn lemma_first_match_index_is_least(v: ColumnStoreView, preds: Seq<PredicateView>)
    requires
        v.nrows() >= 0,
    ensures
        match spec_first_match_index(v, preds) {
            Some(r) => 0 <= r < v.nrows() && spec_row_matches(v, r, preds) && (forall|q: int|
                0 <= q < r ==> !spec_row_matches(v, q, preds)),
            None => forall|q: int| 0 <= q < v.nrows() ==> !spec_row_matches(v, q, preds),
        },
{
    lemma_first_match_from_is_least(v, preds, 0);
}

impl ColumnStore {
    /// Whether row `r` satisfies predicate `p`.
    fn pred_holds(&self, r: usize, p: &Predicate) -> (b: bool)
        requires
            self@.wf(),
            r < self@.nrows(),
        ensures
            b == spec_pred_holds(self@, r as int, p@),
    {
        match find_column(self.schema(), &p.column) {
            Some(j) => {
                proof {
                    crate::schema::lemma_column_index_is_first(self@.schema, p.column@);
                }
                compare_values(p.op, self.value_at(j, r), &p.rhs)
            },
            None => false,
        }
    }

    /// Whether row `r` satisfies every predicate.
    fn row_matches(&self, r: usize, predicates: &Vec<Predicate>) -> (b: bool)
        requires
            self@.wf(),
            r < self@.nrows(),
        ensures
            b == spec_row_matches(self@, r as int, views_of_predicates(predicates@)),
    {
        let ghost pv = views_of_predicates(predicates@);
        let mut k: usize = 0;
        while k < predicates.len()
            invariant
                k <= predicates@.len(),
                self@.wf(),
                r < self@.nrows(),
                pv == views_of_predicates(predicates@),
                pv.len() == predicates@.len(),
                forall|m: int| 0 <= m < k ==> spec_pred_holds(self@, r as int, #[trigger] pv[m]),
            decreases predicates@.len() - k,
        {
            if !self.pred_holds(r, &predicates[k]) {
                proof {
                    assert(pv[k as int] == predicates@[k as int]@);
                }
                return false;
            }
            k += 1;
        }
        true
    }

    /// Projection of row `r` onto the named columns.
    fn project_row(&self, r: usize, projection: &Vec<String>) -> (res: Option<Vec<Value>>)
        requires
            self@.wf(),
            r < self@.nrows(),
        ensures
            match spec_project(self@, r as int, views_of_names(projection@)) {
                Some(vals) => res is Some && views_of_values(res.unwrap()@) == vals,
                None => res is None,
            },
    {
        let ghost pj = views_of_names(projection@);
        let mut out: Vec<Value> = Vec::new();
        let mut i: usize = 0;
        while i < projection.len()
            invariant
                i <= projection@.len(),
                self@.wf(),
                r < self@.nrows(),
                pj == views_of_names(projection@),
                pj.len() == projection@.len(),
                out@.len() == i,
                forall|m: int|
                    0 <= m < i ==> spec_column_index(self@.schema, #[trigger] pj[m]) is Some,
                forall|m: int|
                    0 <= m < i ==> views_of_values(out@)[m] == self@.cols[spec_column_index(
                        self@.schema,
                        #[trigger] pj[m],
                    )->Some_0][r as int],
            decreases projection@.len() - i,
        {
            proof {
                assert(pj[i as int] == projection@[i as int]@);
            }
            match find_column(self.schema(), &projection[i]) {
                Some(j) => {
                    proof {
                        crate::schema::lemma_column_index_is_first(
                            self@.schema,
                            projection@[i as int]@,
                        );
                    }
                    let v = self.value_at(j, r).duplicate();
                    out.push(v);
                    proof {
                        assert(views_of_values(out@)[i as int] == self@.cols[j as int][r as int]);
                    }
                },
                None => {
                    return None;
                },
            }
            i += 1;
        }
        proof {
            let vals = spec_project(self@, r as int, pj)->Some_0;
            assert(views_of_values(out@) =~= vals);
        }
        Some(out)
    }

    /// Scans rows in insertion order and returns the projection of the
    /// first row satisfying every predicate; `None` when no row qualifies
    /// or a projected column name is unknown.
    pub fn first_match(&self, projection: &Vec<String>, predicates: &Vec<Predicate>) -> (res:
        Option<Vec<Value>>)
        requires
            self@.wf(),
        ensures
            match spec_first_match(self@, views_of_names(projection@), views_of_predicates(
                predicates@,
            )) {
                Some(vals) => res is Some && views_of_values(res.unwrap()@) == vals,
                None => res is None,
            },
    {
        let ghost pv = views_of_predicates(predicates@);
        let nrows = self.num_rows();
        let mut r: usize = 0;
        while r < nrows
            invariant
                r <= nrows,
                self@.wf(),
                nrows == self@.nrows(),
                pv == views_of_predicates(predicates@),
                spec_first_match_index(self@, pv) == spec_first_match_from(self@, pv, r as int),
            decreases nrows - r,
        {
            if self.row_matches(r, predicates) {
                return self.project_row(r, projection);
            }
            r += 1;
        }
        None
    }
}

impl Table {
    /// The first-match query over this table's rows, staged rows included.
    pub fn first_match(&self, projection: &Vec<String>, predicates: &Vec<Predicate>) -> (res:
        Option<Vec<Value>>)
        requires
            self@.wf(),
        ensures
            match spec_first_match(self@.store, views_of_names(projection@), views_of_predicates(
                predicates@,
            )) {
                Some(vals) => res is Some && views_of_values(res.unwrap()@) == vals,
                None => res is None,
            },
    {
        self.store().first_match(projection, predicates)
    }
}

impl TransactionManager {
    /// The first-match query over the wrapped table's rows.
    pub fn first_match(&self, projection: &Vec<String>, predicates: &Vec<Predicate>) -> (res:
        Option<Vec<Value>>)
        requires
            self@.wf(),
        ensures
            match spec_first_match(
                self@.table.store,
                views_of_names(projection@),
                views_of_predicates(predicates@),
            ) {
                Some(vals) => res is Some && views_of_values(res.unwrap()@) == vals,
                None => res is None,
            },
    {
        self.table().first_match(projection, predicates)
    }
}

} // verus!
