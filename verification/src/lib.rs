//! Versioned, durable key-value state backend for a contract-execution engine.
//!
//! The store records every account, code and storage write as a new row in an
//! append-only log; a read resolves a key to the most recently appended row,
//! or to the type's zero value when no row exists.  An in-memory existence
//! index is kept consistent with every committed write.

pub mod backend;
pub mod db;
pub mod executor;
pub mod laws;
pub mod log;
pub mod state;
pub mod types;
pub mod words;
