//! Commands of the explorer: what each one answers with, given the state
//! of the buffer and what the file tree reported.

pub mod error;
pub mod action;
pub mod current;
pub mod parent;
pub mod go;
pub mod child;
pub mod new;
pub mod remove;
pub mod rename;
pub mod paste;
pub mod copy;
pub mod toggle;
pub mod command;
