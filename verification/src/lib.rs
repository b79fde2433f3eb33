//! A small query engine for tabular text data: a boolean filter language
//! over named columns, a projection-list language sharing the same field
//! syntax, a schema resolver mapping column names to positions, and a
//! per-row evaluator with short-circuiting `and`/`or`.

pub mod args;
pub mod errors;
pub mod field_ref;
pub mod query_parser;
pub mod reader;
pub mod select_parser;
