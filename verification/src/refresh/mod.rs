//! Refreshing stream tables.

pub mod phd1;
