//! Causal operation-log synchronization engine.
//!
//! The library replicates a local relational data store across autonomous
//! devices ("nodes") of one logical collection ("library"), without a central
//! server, tolerating disconnection and out-of-order delivery. It provides:
//!
//! - a hybrid logical clock that produces causally ordered timestamps;
//! - an operation model (owned, shared and relation mutations) with a
//!   portable record identity distinct from any local primary key;
//! - an operation factory that stamps well-formed operations;
//! - a write path that couples a mutation atomically with its log record;
//! - an ingestion path that applies a received operation to local state,
//!   idempotently where possible.

pub mod apply;
pub mod clock;
pub mod config;
pub mod convergence;
pub mod errors;
pub mod frontend;
pub mod manager;
pub mod ops;
pub mod registry;
pub mod store;
pub mod value;
