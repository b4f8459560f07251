//! The core of a small service that keeps the register of a smart house:
//! houses hold rooms, and rooms hold devices that are switched on or off.
//!
//! The library says what each request does, and proves it. It does no
//! input or output of its own:
//!
//! - `models` has the rows of the three tables;
//! - `statement` has the typed queries that the storage is asked to run, and
//!   its answers;
//! - `tables` is the mathematical model of the storage, and `store` holds
//!   the tables in memory, proved against the model;
//! - `exchange` has the decisions of a request as a machine that asks for
//!   one action at a time, for a caller that owns a database;
//! - `meaning` says what each operation does to the tables and replies;
//! - `handlers` has one handler for each operation, on the store in memory;
//! - `router` finds the handler for a method and a path;
//! - `decimal` writes counts;
//! - `laws` states what holds of the handlers together.

pub mod decimal;
pub mod exchange;
pub mod handlers;
pub mod laws;
pub mod meaning;
pub mod models;
pub mod router;
pub mod statement;
pub mod store;
pub mod tables;
