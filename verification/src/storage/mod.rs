//! The stored shape of the ledger.

pub mod schema;
