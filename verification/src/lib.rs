//! Recursive search of directory trees for entries whose path matches a
//! regular expression, with filters on size, depth, type and permissions.

pub mod entry;
pub mod find;
pub mod laws;
pub mod navigate;
pub mod origin;
pub mod pattern;
pub mod permission;
pub mod report;
pub mod request;
pub mod search;
pub mod shell;
pub mod text;
pub mod tree;
pub mod walker;
