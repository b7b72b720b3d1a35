//! A minimal verified key-value store speaking a line-delimited text
//! protocol: a table from string keys to string values, a parser from a
//! line of text to a typed command, and the dispatch step that executes
//! one command against the table and renders one reply line.
pub mod command;
pub mod laws;
pub mod store;
pub mod table;

pub use command::Command;
pub use store::Storage;
pub use store::Store;
pub use table::Table;
