//! Per-node state engine for a consensus-backed ledger service.
//!
//! The engine applies ordered batches of transactions to a versioned,
//! content-addressed key/value store, stages the prospective result for
//! cross-party agreement, and then either commits it durably or discards
//! it.  A bounded lifecycle tracker records what happened to each batch,
//! and every commit yields an ordered list of state-change events.

pub mod batch;
pub mod changes;
pub mod engine;
pub mod error;
pub mod hexcode;
pub mod history;
pub mod settings;
