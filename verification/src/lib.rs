//! Decision logic of a tree-style file explorer driven by editor commands:
//! command-line parsing, option folding, rendering of directory listings
//! into buffer lines, and the actions each command answers with.

pub mod text;
pub mod option;
pub mod name;
pub mod repository;
pub mod command;
pub mod state;
