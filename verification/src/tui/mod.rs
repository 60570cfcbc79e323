//! The terminal dashboard.

pub mod poller;
