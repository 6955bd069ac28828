//! The vault ceremony: creating the vault, unlocking it with the password,
//! and restoring it from the recovery phrase.

use vstd::prelude::*;
use vstd::string::StringSliceAdditionalSpecFns;
use crate::crypto::VaultKeys;
use crate::crypto::kdf::{argon2id_key, derive_master_key};
use crate::crypto::keys::{derive_keys, keys_of};
use crate::crypto::phrase::{
    bip39_english_words, decode_phrase, decoded_secret, derive_phrase_verifier, encode_phrase,
    phrase_verify_info,
};
use crate::crypto::keys::hkdf_sha256_32;
use crate::crypto::vault::{decrypt_outcome, decrypt_vault_secret, encrypt_vault_secret, random_bytes};

verus! {

#[derive(Debug)]
pub struct VaultStatus {
    pub initialized: bool,
    pub unlocked: bool,
}

/// The status a vault reports: initialised once a configuration row exists,
/// unlocked while the keys are held.
pub fn vault_status_of(config_rows: i64, unlocked: bool) -> (s: VaultStatus)
    ensures
        s.initialized == (config_rows > 0),
        s.unlocked == unlocked,
{
    VaultStatus { initialized: config_rows > 0, unlocked }
}

/// What the vault configuration row holds.
pub struct VaultMaterial {
    pub salt: [u8; 32],
    pub encrypted_vault_secret: Vec<u8>,
    pub phrase_verifier: [u8; 32],
}

pub open spec fn invalid_password() -> Seq<char> {
    "invalid password"@
}

pub open spec fn phrase_not_recognized() -> Seq<char> {
    "recovery phrase not recognized"@
}

/// What unlocking with a password recovers from the stored salt and blob: the
/// vault secret, or "invalid password".
pub open spec fn unlock_outcome(salt: Seq<u8>, blob: Seq<u8>, password: Seq<u8>) -> Result<
    Seq<u8>,
    Seq<char>,
> {
    if salt.len() != 32 {
        Err(invalid_password())
    } else {
        match decrypt_outcome(argon2id_key(password, salt), blob) {
            Ok(s) => Ok(s),
            Err(_) => Err(invalid_password()),
        }
    }
}

pub open spec fn opt_bytes(o: Option<Vec<u8>>) -> Option<Seq<u8>> {
    match o {
        Some(v) => Some(v@),
        None => None,
    }
}

pub open spec fn holds_keys_of(k: VaultKeys, secret: Seq<u8>) -> bool {
    keys_of(secret, k.data_key@, k.ingest_secret@, k.sync_signing_seed@)
}

pub open spec fn password_fits(password: &str) -> bool {
    password.spec_bytes().len() <= 0xffff_ffff
}

fn keys_from(vault_secret: &[u8; 32]) -> (k: VaultKeys)
    ensures
        holds_keys_of(k, vault_secret@),
{
    let d = derive_keys(vault_secret);
    VaultKeys { data_key: d.data_key, ingest_secret: d.ingest_secret, sync_signing_seed: d.sync_signing_seed }
}

/// Seals a vault secret under a password with a fresh random salt. Unlocking
/// the result with the same password gives the secret back.
pub fn seal_vault_secret(vault_secret: &[u8; 32], password: &str) -> (m: VaultMaterial)
    requires
        password_fits(password),
    ensures
        unlock_outcome(m.salt@, m.encrypted_vault_secret@, password.spec_bytes()) == Ok::<
            Seq<u8>,
            Seq<char>,
        >(vault_secret@),
        m.phrase_verifier@ == hkdf_sha256_32(vault_secret@, phrase_verify_info()),
{
    let salt: [u8; 32] = random_bytes();
    let master_key = derive_master_key(password.as_bytes(), &salt);
    let blob = encrypt_vault_secret(&master_key, vault_secret);
    let verifier = derive_phrase_verifier(vault_secret);
    VaultMaterial { salt, encrypted_vault_secret: blob, phrase_verifier: verifier }
}

/// A freshly created vault: what to store, the keys to hold, and the secret
/// to show as a recovery phrase.
pub struct CreatedVault {
    pub material: VaultMaterial,
    pub keys: VaultKeys,
    pub vault_secret: [u8; 32],
}

/// Creates the vault unless a configuration row exists already. The new
/// secret is random; the vault then unlocks with the same password, its keys
/// are the secret's, and its verifier matches the secret's phrase.
pub fn create_vault_material(config_rows: i64, password: &str) -> (r: Result<CreatedVault, String>)
    requires
        config_rows <= 0 ==> password_fits(password),
    ensures
        r is Err <==> config_rows > 0,
        r matches Err(e) ==> e@ == "vault already initialized"@,
        r matches Ok(c) ==> {
            &&& unlock_outcome(
                c.material.salt@,
                c.material.encrypted_vault_secret@,
                password.spec_bytes(),
            ) == Ok::<Seq<u8>, Seq<char>>(c.vault_secret@)
            &&& holds_keys_of(c.keys, c.vault_secret@)
            &&& c.material.phrase_verifier@ == hkdf_sha256_32(c.vault_secret@, phrase_verify_info())
        },
{
    if config_rows > 0 {
        return Err(String::from_str("vault already initialized"));
    }
    let vault_secret: [u8; 32] = random_bytes();
    let material = seal_vault_secret(&vault_secret, password);
    let keys = keys_from(&vault_secret);
    Ok(CreatedVault { material, keys, vault_secret })
}

/// Unlocks with a password: the keys of the secret that the stored blob
/// holds, or "invalid password".
pub fn unlock_with_password(salt_blob: &[u8], encrypted_blob: &[u8], password: &str) -> (r: Result<
    VaultKeys,
    String,
>)
    requires
        salt_blob@.len() == 32 ==> password_fits(password),
    ensures
        match r {
            Ok(k) => unlock_outcome(salt_blob@, encrypted_blob@, password.spec_bytes()) is Ok
                && holds_keys_of(
                k,
                unlock_outcome(salt_blob@, encrypted_blob@, password.spec_bytes())->Ok_0,
            ),
            Err(e) => unlock_outcome(salt_blob@, encrypted_blob@, password.spec_bytes()) is Err
                && e@ == invalid_password(),
        },
{
    if salt_blob.len() != 32 {
        return Err(String::from_str("invalid password"));
    }
    let mut salt = [0u8; 32];
    for i in 0..32
        invariant
            salt_blob@.len() == 32,
            salt@.len() == 32,
            forall|k: int| 0 <= k < i ==> salt@[k] == salt_blob@[k],
    {
        salt[i] = salt_blob[i];
    }
    assert(salt@ =~= salt_blob@);
    let master_key = derive_master_key(password.as_bytes(), &salt);
    match decrypt_vault_secret(&master_key, encrypted_blob) {
        Ok(vault_secret) => Ok(keys_from(&vault_secret)),
        Err(_) => Err(String::from_str("invalid password")),
    }
}

/// What a recovery phrase recovers, checked against the stored verifier: the
/// secret, or "recovery phrase not recognized" (also when no verifier is
/// stored, since then no phrase ceremony was completed).
pub open spec fn recovery_outcome(phrase: Seq<char>, stored_verifier: Option<Seq<u8>>) -> Result<
    Seq<u8>,
    Seq<char>,
> {
    match decoded_secret(phrase) {
        Err(_) => Err(phrase_not_recognized()),
        Ok(s) => match stored_verifier {
            None => Err(phrase_not_recognized()),
            Some(v) => if v.len() == 32 && hkdf_sha256_32(s, phrase_verify_info()) == v {
                Ok(s)
            } else {
                Err(phrase_not_recognized())
            },
        },
    }
}

/// The vault secret that a recovery phrase encodes, if the stored verifier
/// confirms it.
pub fn recover_vault_secret(phrase: &str, stored_verifier: Option<Vec<u8>>) -> (r: Result<
    [u8; 32],
    String,
>)
    ensures
        match r {
            Ok(s) => recovery_outcome(phrase@, opt_bytes(stored_verifier)) == Ok::<
                Seq<u8>,
                Seq<char>,
            >(s@),
            Err(e) => recovery_outcome(phrase@, opt_bytes(stored_verifier)) is Err
                && e@ == phrase_not_recognized(),
        },
{
    let candidate = match decode_phrase(phrase) {
        Ok(s) => s,
        Err(_) => return Err(String::from_str("recovery phrase not recognized")),
    };
    let stored = match stored_verifier {
        Some(v) => v,
        None => return Err(String::from_str("recovery phrase not recognized")),
    };
    if stored.len() != 32 {
        return Err(String::from_str("recovery phrase not recognized"));
    }
    let candidate_verifier = derive_phrase_verifier(&candidate);
    let mut same = true;
    for i in 0..32
        invariant
            stored@.len() == 32,
            candidate_verifier@.len() == 32,
            same <==> forall|k: int| 0 <= k < i ==> candidate_verifier@[k] == stored@[k],
    {
        if candidate_verifier[i] != stored[i] {
            same = false;
        }
    }
    if !same {
        return Err(String::from_str("recovery phrase not recognized"));
    }
    assert(candidate_verifier@ =~= stored@);
    Ok(candidate)
}

/// Restores the vault from its recovery phrase under a new password: the
/// material to store and the keys to hold. The vault then unlocks with the
/// new password and holds the keys of the recovered secret.
pub fn restore_vault(phrase: &str, stored_verifier: Option<Vec<u8>>, new_password: &str) -> (r:
    Result<(VaultMaterial, VaultKeys), String>)
    requires
        recovery_outcome(phrase@, opt_bytes(stored_verifier)) is Ok ==> password_fits(new_password),
    ensures
        match r {
            Ok((m, k)) => {
                let s = recovery_outcome(phrase@, opt_bytes(stored_verifier));
                &&& s is Ok
                &&& unlock_outcome(m.salt@, m.encrypted_vault_secret@, new_password.spec_bytes())
                    == s
                &&& holds_keys_of(k, s->Ok_0)
                &&& m.phrase_verifier@ == hkdf_sha256_32(s->Ok_0, phrase_verify_info())
            },
            Err(e) => recovery_outcome(phrase@, opt_bytes(stored_verifier)) is Err
                && e@ == phrase_not_recognized(),
        },
{
    let secret = recover_vault_secret(phrase, stored_verifier)?;
    let material = seal_vault_secret(&secret, new_password);
    let keys = keys_from(&secret);
    Ok((material, keys))
}

/// The recovery phrase of a vault restores it: a phrase that decodes to the
/// vault secret passes the verifier stored when the vault was created.
pub proof fn vault_phrase_restores(secret: Seq<u8>, phrase: Seq<char>, verifier: Seq<u8>)
    requires
        decoded_secret(phrase) == Ok::<Seq<u8>, crate::crypto::CryptoError>(secret),
        verifier.len() == 32,
        verifier == hkdf_sha256_32(secret, phrase_verify_info()),
    ensures
        recovery_outcome(phrase, Some(verifier)) == Ok::<Seq<u8>, Seq<char>>(secret),
{
}

/// The recovery phrase shown during the ceremony: the words of the secret
/// held since the vault was created, or an error once the ceremony is over
/// (or when the vault was not freshly created).
pub fn recovery_phrase_for(pending: Option<[u8; 32]>) -> (r: Result<Vec<String>, String>)
    ensures
        match pending {
            Some(secret) => r matches Ok(words) && words.deep_view() == bip39_english_words(secret@),
            None => r matches Err(e) && e@
                == "no pending recovery phrase - ceremony already completed or vault was not freshly created"@,
        },
{
    match pending {
        Some(secret) => Ok(encode_phrase(&secret)),
        None => Err(
            String::from_str(
                "no pending recovery phrase - ceremony already completed or vault was not freshly created",
            ),
        ),
    }
}

} // verus!
