//! Vault cryptography: password stretching, key derivation, the recovery
//! phrase, and sealing of the vault secret.

pub mod kdf;
pub mod keys;
pub mod phrase;
pub mod vault;

use vstd::prelude::*;

verus! {

#[verifier::external_type_specification]
#[verifier::external_body]
#[verifier::reject_recursive_types(T)]
pub struct ExMutex<T: ?Sized>(std::sync::Mutex<T>);

#[derive(Debug, PartialEq, Eq, Structural)]
pub enum CryptoError {
    DecryptionFailed,
    InvalidBlobLength,
    InvalidPhrase,
}

impl CryptoError {
    /// The error's message.
    pub fn message(&self) -> (r: String)
        ensures
            r@ == crypto_error_text(*self),
    {
        match self {
            CryptoError::DecryptionFailed => String::from_str("decryption failed"),
            CryptoError::InvalidBlobLength => String::from_str("invalid blob length"),
            CryptoError::InvalidPhrase => String::from_str("invalid recovery phrase"),
        }
    }
}

pub open spec fn crypto_error_text(e: CryptoError) -> Seq<char> {
    match e {
        CryptoError::DecryptionFailed => "decryption failed"@,
        CryptoError::InvalidBlobLength => "invalid blob length"@,
        CryptoError::InvalidPhrase => "invalid recovery phrase"@,
    }
}

/// In-memory keys derived from the vault secret. Never crosses IPC.
pub struct VaultKeys {
    pub data_key: [u8; 32],
    pub ingest_secret: [u8; 32],
    pub sync_signing_seed: [u8; 32],
}

/// The keys of the unlocked vault; `None` while the vault is locked.
pub struct VaultState(pub std::sync::Mutex<Option<VaultKeys>>);

} // verus!
