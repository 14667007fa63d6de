//! Paths, file status and errors of the virtual file system.

pub mod error;
pub mod path;
pub mod stat;
