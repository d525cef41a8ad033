//! Paths of the file tree: their text operations, the listing of a
//! directory, and the checks and choices made around file operations.

pub mod error;
pub mod path;
pub mod file;
