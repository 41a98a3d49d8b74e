//! The configuration the daemon is started with.

pub mod file_struct;
