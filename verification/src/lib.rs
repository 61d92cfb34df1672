//! An in-process store for task records: identifier assignment, partial-field
//! updates ("patches", including explicit field clearing), deletion, and a set
//! of read-only filtered views over a single in-memory collection.
//!
//! The current wall-clock time and the caller's identity are supplied by the
//! host on each call, so every operation here is a pure function of its
//! arguments and the repository state.

pub mod laws;
pub mod repo;
pub mod task;
