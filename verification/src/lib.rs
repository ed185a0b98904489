//! An in-memory, columnar query engine: typed columns, a postfix expression
//! evaluator and the table operations built on them.

pub mod database;
pub mod expr;
pub mod frame;
pub mod laws;
pub mod log;
pub mod query;
pub mod query_error;
pub mod table;
pub mod values;
