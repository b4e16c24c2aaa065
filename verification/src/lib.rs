//! A deferred schema-definition builder.
//!
//! Callers describe intended database tables through a fluent API: each
//! registration records a table name together with an opaque mutation
//! callback and performs no work. A single render call then replays every
//! callback exactly once, in registration order, against a fresh per-table
//! record, and serializes the result into `create table` DDL text.

pub mod render;
pub mod schema;
pub mod skeleton;

pub use schema::Schema;
pub use skeleton::Table;
