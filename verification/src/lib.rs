//! Request-independent logic of a small SQL workbench service for MySQL:
//! saved connection records, SQL statement classification, identifier
//! quoting, and the shaping of results sent back to the client.

pub mod cell;
pub mod config;
pub mod connection;
pub mod error;
pub mod order;
pub mod query;
pub mod registry;
pub mod schema;
pub mod sql;
pub mod text;

pub use connection::{default_max_connections, default_mysql_port};
pub use query::default_max_rows;
pub use sql::{quote_identifier, returns_rows};
