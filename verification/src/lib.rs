//! A diary kept in a SQL database: the entry model, the statements the
//! store runs, the decisions of the command line, and the configuration.
pub mod text;
pub mod query;
pub mod backend;
pub mod config;
pub mod entry;
pub mod cli;
pub mod placeholders;
pub mod clock;
