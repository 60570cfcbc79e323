//! Scheduling refreshes.

pub mod cost;
