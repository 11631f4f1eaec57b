//! The query builder: statement text, optional named parameter bindings
//! and a prefetch row count, assembled before the query is prepared.

use vstd::prelude::*;
use crate::oracle::bindings::RowBinding;

verus! {

/// A query under construction.
pub struct QueryBuilder {
    pub stmt_text: String,
    pub bindmap: Option<Vec<(String, RowBinding)>>,
    pub prefetch_rows: u32,
}

impl QueryBuilder {
    /// A builder over the statement text, prefetching ten rows unless
    /// told otherwise.
    pub fn new(stmt_text: String) -> (r: QueryBuilder)
        ensures
            r.stmt_text == stmt_text,
            r.bindmap is None,
            r.prefetch_rows == 10,
    {
        QueryBuilder { stmt_text, bindmap: None, prefetch_rows: 10 }
    }

    /// Attaches the named parameter bindings.
    pub fn bind(self, bindmap: Option<Vec<(String, RowBinding)>>) -> (r: QueryBuilder)
        ensures
            r.stmt_text == self.stmt_text,
            r.bindmap == bindmap,
            r.prefetch_rows == self.prefetch_rows,
    {
        QueryBuilder { stmt_text: self.stmt_text, bindmap, prefetch_rows: self.prefetch_rows }
    }

    /// Sets the prefetch row count; at least one row must be batched.
    pub fn prefetch(self, rows: u32) -> (r: QueryBuilder)
        requires
            rows >= 1,
        ensures
            r.stmt_text == self.stmt_text,
            r.bindmap == self.bindmap,
            r.prefetch_rows == rows,
    {
        QueryBuilder { stmt_text: self.stmt_text, bindmap: self.bindmap, prefetch_rows: rows }
    }
}

} // verus!
