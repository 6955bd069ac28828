//! The double-entry ledger.

pub mod engine;
