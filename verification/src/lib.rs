//! Offline-first SQLite storage with a built-in sync engine.
//!
//! - [`database`], [`schema`], [`commands`]: the open databases, their tables,
//!   and what the front-end can ask of them.
//! - [`changelog`]: the log of local changes that wait to be pushed.
//! - [`sync`]: pushing, pulling, conflicts, the event stream and the engine.
//! - [`tables`]: what all this comes to in the tables.
//! - [`laws`]: what all this comes to for its callers, said of what goes in and
//!   what comes out.
//! - [`store`], [`rows`] and [`driver`]: the way to SQLite, with a record of what was asked
//!   that the contracts of all the others speak of.

pub mod chain;
pub mod changelog;
pub mod clock;
pub mod commands;
pub mod database;
pub mod driver;
pub mod encoding;
pub mod json;
pub mod laws;
pub mod registry;
pub mod request;
pub mod rows;
pub mod schema;
pub mod sql;
pub mod store;
pub mod sync;
pub mod tables;
pub mod text;
