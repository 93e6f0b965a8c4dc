//! Transactional write engine of a pluggable key-value storage layer.
//!
//! A batch of data-model operations is compiled, operation by operation, into
//! the primitives of a backend: mutations of an ordered key-value store, or
//! statements of a relational database with one table per subspace.  The
//! engine itself performs no input or output: it says what to read and what to
//! write, and is told what came back.
//!
//! - [`batch`], [`key`], [`bytes`]: what a batch is and where its entities
//!   live.
//! - [`chunk`], [`allocator`]: values that span records, and fresh document
//!   identifiers.
//! - [`kv`], [`sql`], [`sql_writer`]: the writers for the two kinds of
//!   backend.
//! - [`retry`], [`purge`]: when a failed attempt is made again, and how
//!   counters that are zero are deleted.
//! - [`model`], [`laws`]: the key-value store as a mathematical object, and
//!   what is proved of the engine over it.

pub mod allocator;
pub mod batch;
pub mod bytes;
pub mod chunk;
pub mod error;
pub mod key;
pub mod kv;
pub mod laws;
pub mod model;
pub mod mutation;
pub mod purge;
pub mod retry;
pub mod sql;
pub mod sql_writer;
