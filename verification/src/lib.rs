//! Core of a small relational file engine: a fixed-layout database-file
//! header codec with page addressing, and a recursive-descent parser for
//! single-table `SELECT` statements.

pub mod header;
pub mod pager;
pub mod paths;
pub mod select;
