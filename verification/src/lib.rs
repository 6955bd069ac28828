//! Verified core of a zero-knowledge envelope-budgeting ledger: amount and
//! statement parsing, duplicate detection, the double-entry posting rules,
//! the envelope budget arithmetic and the vault key ceremony.

pub mod commands;
pub mod crypto;
pub mod import;
pub mod ledger;
pub mod storage;
pub mod text;
