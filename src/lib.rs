//! Finds tagged comments ("crumbs": a comment symbol followed by `:=`) in source files, merges
//! their continuation lines, filters them by keyword, and computes the lines of a file once its
//! crumbs are deleted or turned back into plain comments.

pub mod args;
pub mod config;
pub mod datatypes;
pub mod fs_operation;
pub mod matcher;
pub mod prompt;
pub mod text;
