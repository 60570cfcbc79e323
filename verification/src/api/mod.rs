//! Functions that users of the extension call.

pub mod release_096;
