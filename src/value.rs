use vstd::prelude::*;

verus! {

/// A scalar value, either bound to a placeholder or read from a result row.
#[derive(Debug, PartialEq, Eq)]
pub enum SqlValue {
    Null,
    Bool(bool),
    Int(i64),
    Text(String),
}

/// The mathematical content of a [`SqlValue`].
pub enum Val {
    Null,
    Bool(bool),
    Int(int),
    Text(Seq<char>),
}

impl View for SqlValue {
    type V = Val;

    open spec fn view(&self) -> Val {
        match self {
            SqlValue::Null => Val::Null,
            SqlValue::Bool(b) => Val::Bool(*b),
            SqlValue::Int(i) => Val::Int(*i as int),
            SqlValue::Text(s) => Val::Text(s@),
        }
    }
}

/// The contents of a sequence of values.
pub open spec fn vals(s: Seq<SqlValue>) -> Seq<Val> {
    s.map_values(|v: SqlValue| v@)
}

impl SqlValue {
    /// A copy holding the same content.
    pub fn copy_value(&self) -> (r: SqlValue)
        ensures
            r@ == self@,
    {
        match self {
            SqlValue::Null => SqlValue::Null,
            SqlValue::Bool(b) => SqlValue::Bool(*b),
            SqlValue::Int(i) => SqlValue::Int(*i),
            SqlValue::Text(s) => SqlValue::Text(s.clone()),
        }
    }
}

} // verus!
