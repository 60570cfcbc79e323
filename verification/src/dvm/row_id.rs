//! How rows are told apart.

use vstd::prelude::*;

verus! {

/// How an operator computes row ids.
#[derive(Debug, Clone)]
pub enum RowIdStrategy {
    /// From the primary key of a table.
    PrimaryKey { pk_columns: Vec<String> },
    /// From all columns, where there is no key.
    AllColumns { columns: Vec<String> },
    /// From the row ids of both inputs of a join.
    CombineChildren,
    /// From the columns of a grouping.
    GroupByKey { group_columns: Vec<String> },
    /// Those of the input.
    PassThrough,
}

} // verus!
