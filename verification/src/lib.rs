//! A multi-backend database adapter core.
//!
//! This crate holds the verified logic of an adapter layer that presents
//! PostgreSQL, MySQL, SQLite and a key-value store through one uniform
//! interface: the normalized data model, the per-backend introspection and
//! result conversions, the key-value command interpreter, and the connection
//! registry. The driver calls themselves (network and file I/O) live outside
//! the library; they hand plain values in and take plain values back.

pub mod text;
pub mod model;
pub mod kv;
pub mod schema;
pub mod postgres;
pub mod mysql;
pub mod registry;
pub mod lifecycle;
pub mod sqlite;
