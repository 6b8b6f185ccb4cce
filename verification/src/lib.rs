//! Access-key lifecycle reconciliation for a wallet indexer.
//!
//! The library derives access-key lifecycle records from blockchain
//! receipts, execution outcomes and state snapshots, and maintains them
//! in one table with idempotent upserts and targeted status updates.

pub mod access_keys;
pub mod bulk;
pub mod encoding;
pub mod enums;
pub mod pipeline;
pub mod reconciler;
pub mod snapshot;
pub mod state_viewer;
pub mod store;
pub mod views;
