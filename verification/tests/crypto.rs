use manila::commands::vault::{
    create_vault_material, recover_vault_secret, recovery_phrase_for, restore_vault, unlock_with_password,
    vault_status_of,
};
use manila::crypto::kdf::derive_master_key;
use manila::crypto::keys::derive_keys;
use manila::crypto::phrase::{decode_phrase, derive_phrase_verifier, encode_phrase, phrase_text};
use manila::crypto::vault::{decrypt_vault_secret, encrypt_vault_secret};
use manila::crypto::CryptoError;

// Reference vector: Argon2id, m=65536, t=3, p=1, password=b"password", salt=[0u8; 32], len=32.
const EXPECTED: [u8; 32] = [
    59, 34, 87, 79, 104, 60, 194, 242, 252, 62, 245, 156, 108, 134, 52, 42, 213, 144, 226, 45, 47, 2, 243,
    249, 77, 27, 254, 154, 50, 226, 170, 4,
];

#[test]
fn fixed_input_produces_expected_output() {
    let result = derive_master_key(b"password", &[0u8; 32]);
    assert_eq!(result, EXPECTED);
}

#[test]
fn wrong_password_produces_different_key() {
    let a = derive_master_key(b"password", &[0u8; 32]);
    let b = derive_master_key(b"wrongpassword", &[0u8; 32]);
    assert_ne!(a, b);
}

#[test]
fn same_secret_produces_identical_keys() {
    let secret = [0x55u8; 32];
    let a = derive_keys(&secret);
    let b = derive_keys(&secret);
    assert_eq!(a.data_key, b.data_key);
    assert_eq!(a.ingest_secret, b.ingest_secret);
    assert_eq!(a.sync_signing_seed, b.sync_signing_seed);
}

#[test]
fn three_keys_are_mutually_distinct() {
    let secret = [0x42u8; 32];
    let keys = derive_keys(&secret);
    assert_ne!(keys.data_key, keys.ingest_secret);
    assert_ne!(keys.data_key, keys.sync_signing_seed);
    assert_ne!(keys.ingest_secret, keys.sync_signing_seed);
}

#[test]
fn bip39_round_trip() {
    let secret = [0x42u8; 32];
    let words = encode_phrase(&secret);
    assert_eq!(words.len(), 24);
    let phrase = words.join(" ");
    let recovered = decode_phrase(&phrase).unwrap();
    assert_eq!(recovered, secret);
}

#[test]
fn phrase_text_joins_with_single_spaces() {
    let words = encode_phrase(&[0x42u8; 32]);
    assert_eq!(phrase_text(&words), words.join(" "));
}

#[test]
fn verifier_is_deterministic() {
    let secret = [0x11u8; 32];
    let a = derive_phrase_verifier(&secret);
    let b = derive_phrase_verifier(&secret);
    assert_eq!(a, b);
}

#[test]
fn verifier_differs_from_derived_keys() {
    let secret = [0x55u8; 32];
    let keys = derive_keys(&secret);
    let verifier = derive_phrase_verifier(&secret);
    assert_ne!(verifier, keys.data_key);
    assert_ne!(verifier, keys.ingest_secret);
    assert_ne!(verifier, keys.sync_signing_seed);
}

#[test]
fn wrong_phrase_returns_err() {
    let result = decode_phrase("not a valid phrase at all foo bar baz");
    assert!(result.is_err());
}

#[test]
fn round_trip_recovers_original_secret() {
    let master_key = [0x42u8; 32];
    let vault_secret = [0x7fu8; 32];
    let blob = encrypt_vault_secret(&master_key, &vault_secret);
    let recovered = decrypt_vault_secret(&master_key, &blob).unwrap();
    assert_eq!(recovered, vault_secret);
}

#[test]
fn tampered_ciphertext_returns_err() {
    let master_key = [0x11u8; 32];
    let vault_secret = [0xabu8; 32];
    let mut blob = encrypt_vault_secret(&master_key, &vault_secret);
    blob[25] ^= 0xff;
    assert!(decrypt_vault_secret(&master_key, &blob).is_err());
}

#[test]
fn blob_has_nonce_and_tag_and_short_blob_is_refused() {
    let blob = encrypt_vault_secret(&[1u8; 32], &[2u8; 32]);
    assert_eq!(blob.len(), 72);
    assert!(matches!(decrypt_vault_secret(&[1u8; 32], &blob[..20]), Err(CryptoError::InvalidBlobLength)));
    assert!(matches!(decrypt_vault_secret(&[9u8; 32], &blob), Err(CryptoError::DecryptionFailed)));
}

// --- the vault ceremony, with the stored row held in memory ---

#[test]
fn create_then_lock_then_unlock_with_correct_password() {
    let created = create_vault_material(0, "correct horse").unwrap();
    let keys = unlock_with_password(&created.material.salt, &created.material.encrypted_vault_secret, "correct horse")
        .unwrap();
    assert_eq!(keys.data_key, created.keys.data_key);
    assert_eq!(keys.ingest_secret, created.keys.ingest_secret);
    assert_eq!(keys.sync_signing_seed, created.keys.sync_signing_seed);
}

#[test]
fn unlock_with_wrong_password_returns_err() {
    let created = create_vault_material(0, "correct horse").unwrap();
    let r = unlock_with_password(&created.material.salt, &created.material.encrypted_vault_secret, "wrong");
    assert_eq!(r.err().unwrap(), "invalid password");
}

#[test]
fn create_vault_rejects_second_call() {
    assert_eq!(create_vault_material(1, "pw").err().unwrap(), "vault already initialized");
}

#[test]
fn create_vault_stores_phrase_verifier() {
    let created = create_vault_material(0, "pw").unwrap();
    assert_eq!(created.material.phrase_verifier, derive_phrase_verifier(&created.vault_secret));
}

#[test]
fn restore_with_correct_phrase_and_new_password() {
    let created = create_vault_material(0, "old").unwrap();
    let phrase = encode_phrase(&created.vault_secret).join(" ");
    let verifier = created.material.phrase_verifier.to_vec();
    let (material, keys) = restore_vault(&phrase, Some(verifier), "new").unwrap();
    assert_eq!(keys.data_key, created.keys.data_key);
    let unlocked = unlock_with_password(&material.salt, &material.encrypted_vault_secret, "new").unwrap();
    assert_eq!(unlocked.data_key, created.keys.data_key);
    assert!(unlock_with_password(&material.salt, &material.encrypted_vault_secret, "old").is_err());
}

#[test]
fn restore_without_verifier_returns_err() {
    let phrase = encode_phrase(&[3u8; 32]).join(" ");
    assert_eq!(restore_vault(&phrase, None, "new").err().unwrap(), "recovery phrase not recognized");
}

#[test]
fn restore_with_wrong_phrase_returns_err() {
    let created = create_vault_material(0, "old").unwrap();
    let other = encode_phrase(&[9u8; 32]).join(" ");
    let verifier = created.material.phrase_verifier.to_vec();
    assert_eq!(
        recover_vault_secret(&other, Some(verifier)).err().unwrap(),
        "recovery phrase not recognized"
    );
    assert_eq!(
        recover_vault_secret("not a phrase", None).err().unwrap(),
        "recovery phrase not recognized"
    );
}

#[test]
fn status_and_pending_phrase() {
    let s = vault_status_of(1, false);
    assert!(s.initialized && !s.unlocked);
    let s = vault_status_of(0, true);
    assert!(!s.initialized && s.unlocked);
    assert_eq!(recovery_phrase_for(Some([5u8; 32])).unwrap(), encode_phrase(&[5u8; 32]));
    assert!(recovery_phrase_for(None).is_err());
}
