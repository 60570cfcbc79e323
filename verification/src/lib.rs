//! Stream tables for PostgreSQL: the verified core.
//!
//! The library holds the rules of the extension and none of its input or
//! output: generating delta queries for an operator tree, ordering stream
//! tables in a dependency graph, naming and decoding change-capture objects,
//! classifying errors and building SQL text.  Functions take and return plain
//! values, and each states what it computes over sequences of characters.

pub mod text;
pub mod lexical;
pub mod text_laws;
pub mod lexical_laws;
pub mod text_map;
pub mod graph;
pub mod dag;
pub mod schedule;
pub mod error;
pub mod sql_builder;
pub mod dvm;
pub mod cdc;
pub mod catalog;
pub mod wal_decoder;
pub mod capture_laws;
pub mod buffer_laws;
pub mod hooks;
pub mod catalog_laws;
pub mod monitor;
pub mod api;
pub mod refresh;
pub mod scheduler;
pub mod operations_laws;
pub mod shmem;
pub mod tui;
pub mod report_laws;
