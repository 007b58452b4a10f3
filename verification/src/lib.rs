//! Reconciliation engine for a shared in-game bank: classifies raw feed
//! records into typed operations, ingests only unseen records relative to a
//! timestamp cursor, applies them to a per-member balance ledger while
//! journaling each one, detects drift against the externally reported
//! balance, resolves the group's progression cap, and derives rolling
//! per-member balance deltas. Every function here carries a contract that
//! Verus proves; fetching, persistence and presentation live outside.

pub mod balances;
pub mod format;
pub mod helpers;
pub mod ledger;
pub mod models;
pub mod operation;
pub mod reconcile;
pub mod username;
