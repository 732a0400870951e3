//! Cell values stored in a column.

use vstd::prelude::*;

verus! {

/// One cell value.  A row is a sequence of values, one per schema column.
#[derive(Debug, Clone, PartialEq, Eq)]
pub enum Value {
    U64(u64),
    U8(u8),
    Text(String),
}

/// Mathematical model of a [`Value`]: the text payload is abstracted to its
/// character sequence.
pub enum ValueView {
    U64(u64),
    U8(u8),
    Text(Seq<char>),
}

impl View for Value {
    type V = ValueView;

    open spec fn view(&self) -> ValueView {
        match self {
            Value::U64(x) => ValueView::U64(*x),
            Value::U8(x) => ValueView::U8(*x),
            Value::Text(s) => ValueView::Text(s@),
        }
    }
}

/// The models of a sequence of values.
pub open spec fn views_of_values(s: Seq<Value>) -> Seq<ValueView> {
    s.map_values(|v: Value| v@)
}

/// The models of a sequence of rows.
pub open spec fn views_of_rows(s: Seq<Vec<Value>>) -> Seq<Seq<ValueView>> {
    s.map_values(|r: Vec<Value>| views_of_values(r@))
}

/// True when the two values are of the same kind and equal.
pub open spec fn spec_value_eq(a: ValueView, b: ValueView) -> bool {
    a == b
}

/// True when `a` is strictly below `b`.  Only numeric values of the same
/// kind are ordered; every other pair is unordered.
pub open spec fn spec_value_lt(a: ValueView, b: ValueView) -> bool {
    match (a, b) {
        (ValueView::U64(x), ValueView::U64(y)) => x < y,
        (ValueView::U8(x), ValueView::U8(y)) => x < y,
        _ => false,
    }
}

impl Value {
    /// Whether `self` and `other` are the same value.
    pub fn eq_value(&self, other: &Value) -> (r: bool)
        ensures
            r == spec_value_eq(self@, other@),
    {
        match (self, other) {
            (Value::U64(x), Value::U64(y)) => *x == *y,
            (Value::U8(x), Value::U8(y)) => *x == *y,
            (Value::Text(s), Value::Text(t)) => *s == *t,
            _ => false,
        }
    }

    /// Whether `self` is strictly below `other`.
    pub fn lt_value(&self, other: &Value) -> (r: bool)
        ensures
            r == spec_value_lt(self@, other@),
    {
        match (self, other) {
            (Value::U64(x), Value::U64(y)) => *x < *y,
            (Value::U8(x), Value::U8(y)) => *x < *y,
            _ => false,
        }
    }
}

} // verus!
