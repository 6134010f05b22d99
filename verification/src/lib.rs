//! A verified matching engine for searching rows of tabular data files.
//!
//! The library decides, per row of a table, whether a search pattern matches,
//! which cells matched, and how results are accumulated for each output mode
//! (streaming line-per-row, counting, column-restricted only-matching, and
//! whole-file buffered table rendering). Two kinds of sources feed it: a
//! row-oriented self-describing format (CSV) and a columnar, strongly typed
//! format, whose cells are coerced to text before matching.

pub mod cell;
pub mod cli;
pub mod csv_source;
pub mod engine;
pub mod output;
pub mod matcher;
pub mod pattern;
pub mod scan;
pub mod text;
