//! Differential view maintenance: operator trees and their deltas.

pub mod chain;
pub mod chain_laws;
pub mod delta_laws;
pub mod diff;
pub mod engine;
pub mod expr_laws;
pub mod operator_laws;
pub mod operators;
pub mod parser;
pub mod raw_laws;
pub mod recursive_laws;
pub mod row_id;
pub mod shape;
pub mod tree_laws;
