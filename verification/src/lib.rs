//! A small verified catalog of "bugs": records of a species name and a
//! free-text description, keyed by a user-supplied identifier.
//!
//! The crate holds the command engine of an interactive tool: a tokenizer
//! that splits one input line into a whitespace view and a quoted view,
//! a record store with create/show/update/delete semantics, a dispatcher
//! that routes a line to the right handler, and an error reporter that
//! turns a closed set of error codes into fixed messages. Reading and
//! writing the persisted table, and the terminal loop itself, live outside
//! the library and exchange plain values with it.

pub mod commands;
pub mod report;
pub mod store;
pub mod tokens;
