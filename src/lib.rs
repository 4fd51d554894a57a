//! Composes parameterised SQL queries over declared tables and reads their result rows.
//!
//! A [`query::QueryCore`] is built for a root table, joined to related tables, filtered and
//! ordered; it compiles to one SQL statement with `@p1, @p2, ...` placeholders and the list
//! of values bound to them. Result rows are read back per table as records, field maps, JSON
//! objects or column buffers, eagerly or through the [`stream::RowStream`] state machine.
use vstd::prelude::*;

pub mod descriptor;
pub mod error;
pub mod filter;
pub mod json;
pub mod query;
pub mod row;
pub mod stream;
pub mod text;
pub mod value;

verus! {

/// How a joined table is attached to the query.
pub enum JoinArg {
    Left,
    Right,
    Outer,
    Inner,
}

} // verus!
