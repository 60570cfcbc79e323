//! Differentiation of each operator.

pub mod anti_join;
pub mod cte_scan;
pub mod distinct;
pub mod filter;
pub mod full_join;
pub mod join;
pub mod join_common;
pub mod outer_join;
pub mod recursive_cte;
pub mod recursive_sql;
pub mod scalar_subquery;
pub mod scan;
pub mod semi_join;
pub mod window;
