//! Database access core for a desktop database browser.
//!
//! The crate normalizes heterogeneous driver cell types into a generic
//! tabular result, runs every blocking driver call on a dedicated
//! background execution context, persists connection records with a
//! tiered secure-storage policy, and states the sort/query-rewrite
//! rule that a results-table consumer relies on.

pub mod bridge;
pub mod db;
pub mod error;
pub mod persistence;
pub mod state;
pub mod table_delegate;
pub mod text;
