//! The command layer's decisions: the vault gate, and what each command
//! computes from the rows it reads.

pub mod accounts;
pub mod budget;
pub mod categories;
pub mod goals;
pub mod groups;
pub mod import;
pub mod reports;
pub mod search;
pub mod transactions;
pub mod vault;

use vstd::prelude::*;
use crate::crypto::VaultState;

verus! {

/// What the unlock guard answers for a lock outcome: `Ok(present)` when the lock was
/// taken and keys are (or are not) present, `Err` when the lock is poisoned.
pub open spec fn guard_outcome(lock: Result<bool, ()>) -> Result<(), Seq<char>> {
    match lock {
        Ok(true) => Ok(()),
        Ok(false) => Err("locked"@),
        Err(()) => Err("vault lock poisoned"@),
    }
}

/// The unlock guard's decision for a lock outcome.
pub fn unlock_guard(lock: Result<bool, ()>) -> (r: Result<(), String>)
    ensures
        match (r, guard_outcome(lock)) {
            (Ok(()), Ok(())) => true,
            (Err(e), Err(m)) => e@ == m,
            _ => false,
        },
{
    match lock {
        Ok(true) => Ok(()),
        Ok(false) => Err(String::from_str("locked")),
        Err(()) => Err(String::from_str("vault lock poisoned")),
    }
}

/// Takes the vault mutex (`std::sync::Mutex::lock`) and reports whether keys
/// are held, or `Err` when the mutex is poisoned. Nothing is claimed of the
/// outcome: it depends on what other threads did.
#[verifier::external_body]
fn vault_lock_state(vault: &VaultState) -> (r: Result<bool, ()>) {
    match vault.0.lock() {
        Ok(guard) => Ok(guard.is_some()),
        Err(_) => Err(()),
    }
}

/// Every command that touches financial data passes this gate first: it
/// answers `Ok` only while the vault holds its keys, `"locked"` when it does
/// not, and `"vault lock poisoned"` when the mutex is poisoned.
pub fn require_unlocked(vault: &VaultState) -> (r: Result<(), String>)
    ensures
        match r {
            Ok(()) => true,
            Err(e) => e@ == "locked"@ || e@ == "vault lock poisoned"@,
        },
{
    unlock_guard(vault_lock_state(vault))
}

} // verus!
