//! Transactions and trace comments for SQL connections.
//!
//! The crate holds the decisions behind nested transactions: which statement opens and closes
//! each nesting level, when a transaction span is installed on a connection and taken off again,
//! and how trace context is appended to a query as a trailing SQL comment. Waiting for the
//! database is left to the caller, who hands each reply back to the library.
pub mod ansi_sql;
pub mod decimal;
pub mod laws;
pub mod percent;
pub mod sql_str;
pub mod sqlcommenter;
pub mod sqlcommenter_disabled;
pub mod sqlite;
pub mod telemetry;
pub mod transaction;
