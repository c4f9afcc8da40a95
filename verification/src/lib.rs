//! A chat-based shared-expense ledger.
//!
//! Users in a group conversation record transactions (title, amount, optional
//! description) through a guided multi-turn dialogue, then list or clear the
//! accumulated ledger for that conversation. This crate holds the verified
//! core: the per-conversation dialogue state machine, the ledger and user
//! store, identity resolution with a numeric fallback, and the rich-text
//! presentation of a transaction.

pub mod amount;
pub mod assoc;
pub mod db;
pub mod dialogue;
pub mod engine;
pub mod text;
pub mod utils;
