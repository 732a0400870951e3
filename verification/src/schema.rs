//! Column schema: the declared field list of a table.

use vstd::prelude::*;

verus! {

/// Declaration of one column: its name and whether a uniqueness constraint
/// is enforced on it.
#[derive(Debug, Clone)]
pub struct ColumnSpec {
    pub name: String,
    pub unique: bool,
}

/// Mathematical model of a [`ColumnSpec`].
pub struct ColumnSpecView {
    pub name: Seq<char>,
    pub unique: bool,
}

impl View for ColumnSpec {
    type V = ColumnSpecView;

    open spec fn view(&self) -> ColumnSpecView {
        ColumnSpecView { name: self.name@, unique: self.unique }
    }
}

impl ColumnSpec {
    /// A column declaration with the given name and uniqueness flag.
    pub fn new(name: String, unique: bool) -> (c: ColumnSpec)
        ensures
            c@.name == name@,
            c@.unique == unique,
    {
        ColumnSpec { name, unique }
    }
}

/// The models of a sequence of column declarations.
pub open spec fn views_of_columns(s: Seq<ColumnSpec>) -> Seq<ColumnSpecView> {
    s.map_values(|c: ColumnSpec| c@)
}

/// Index of the first column called `name`, if any.
pub open spec fn spec_column_index(schema: Seq<ColumnSpecView>, name: Seq<char>) -> Option<int>
    decreases schema.len(),
{
    if schema.len() == 0 {
        None
    } else if schema[0].name == name {
        Some(0int)
    } else {
        match spec_column_index(schema.skip(1), name) {
            Some(j) => Some(j + 1),
            None => None,
        }
    }
}

/// The first column called `name` is a real column, carries that name, and
/// no earlier column does.
pub proof fn lemma_column_index_is_first(schema: Seq<ColumnSpecView>, name: Seq<char>)
    ensures
        match spec_column_index(schema, name) {
            Some(j) => 0 <= j < schema.len() && schema[j].name == name && (forall|k: int|
                0 <= k < j ==> schema[k].name != name),
            None => forall|k: int| 0 <= k < schema.len() ==> schema[k].name != name,
        },
    decreases schema.len(),
{
    if schema.len() > 0 && schema[0].name != name {
        let tail = schema.skip(1);
        lemma_column_index_is_first(tail, name);
        assert(forall|k: int| 0 <= k < tail.len() ==> tail[k] == schema[k + 1]);
        match spec_column_index(tail, name) {
            Some(j) => {
                assert(tail[j].name == name);
                assert forall|k: int| 0 <= k < j + 1 implies schema[k].name != name by {
                    if k > 0 {
                        assert(tail[k - 1].name != name);
                    }
                }
            },
            None => {
                assert forall|k: int| 0 <= k < schema.len() implies schema[k].name != name by {
                    if k > 0 {
                        assert(tail[k - 1].name != name);
                    }
                }
            },
        }
    }
}

/// Finds the index of the first column called `name`.
pub fn find_column(schema: &Vec<ColumnSpec>, name: &String) -> (r: Option<usize>)
    ensures
        match r {
            Some(j) => spec_column_index(views_of_columns(schema@), name@) == Some(j as int),
            None => spec_column_index(views_of_columns(schema@), name@) is None,
        },
{
    let ghost views = views_of_columns(schema@);
    let mut i: usize = 0;
    while i < schema.len()
        invariant
            0 <= i <= schema.len(),
            views == views_of_columns(schema@),
            forall|k: int| 0 <= k < i ==> views[k].name != name@,
        decreases schema.len() - i,
    {
        if schema[i].name.eq(name) {
            proof {
                lemma_column_index_of_match(views, name@, i as int);
            }
            return Some(i);
        }
        i += 1;
    }
    proof {
        lemma_column_index_is_first(views, name@);
        if spec_column_index(views, name@) is Some {
            let j = spec_column_index(views, name@)->Some_0;
            assert(views[j].name == name@);
        }
    }
    None
}

/// If `schema[i]` is called `name` and no earlier column is, then `i` is the
/// index that a lookup by `name` yields.
pub proof fn lemma_column_index_of_match(schema: Seq<ColumnSpecView>, name: Seq<char>, i: int)
    requires
        0 <= i < schema.len(),
        schema[i].name == name,
        forall|k: int| 0 <= k < i ==> schema[k].name != name,
    ensures
        spec_column_index(schema, name) == Some(i),
    decreases schema.len(),
{
    if i > 0 {
        lemma_column_index_of_match(schema.skip(1), name, i - 1);
    }
}

} // verus!
