//! Sealing the vault secret under the master key (XChaCha20-Poly1305).

use vstd::prelude::*;
use crate::crypto::CryptoError;
use chacha20poly1305::aead::{Aead, KeyInit};
use rand::RngCore;

verus! {

/// XChaCha20-Poly1305 encryption of a plaintext (no associated data): the
/// ciphertext with its 16-byte tag appended.
pub uninterp spec fn xchacha_seal(key: Seq<u8>, nonce: Seq<u8>, plaintext: Seq<u8>) -> Seq<u8>;

/// XChaCha20-Poly1305 decryption: the plaintext when the tag verifies.
pub uninterp spec fn xchacha_open(key: Seq<u8>, nonce: Seq<u8>, ciphertext: Seq<u8>) -> Option<
    Seq<u8>,
>;

/// `N` bytes from the operating system's random source
/// (`rand::rngs::OsRng::fill_bytes`). Nothing is claimed of the bytes.
#[verifier::external_body]
pub(crate) fn random_bytes<const N: usize>() -> (b: [u8; N]) {
    let mut bytes = [0u8; N];
    rand::rngs::OsRng.fill_bytes(&mut bytes);
    bytes
}

/// `XChaCha20Poly1305::new(key).encrypt(nonce, plaintext)`. The contract
/// claims that the output is the sealing of the plaintext, that it is the
/// 32 plaintext bytes plus the 16-byte tag, and that opening it with the same
/// key and nonce gives the plaintext back (the AEAD's correctness). A
/// 32-byte plaintext is far below the cipher's length limit, so it never
/// fails.
#[verifier::external_body]
fn aead_seal(key: &[u8; 32], nonce: &[u8; 24], plaintext: &[u8; 32]) -> (ct: Vec<u8>)
    ensures
        ct@ == xchacha_seal(key@, nonce@, plaintext@),
        ct@.len() == 48,
        xchacha_open(key@, nonce@, ct@) == Some(plaintext@),
{
    let cipher = chacha20poly1305::XChaCha20Poly1305::new(key.into());
    let n = chacha20poly1305::XNonce::from(*nonce);
    cipher.encrypt(&n, plaintext.as_ref()).expect(
        "XChaCha20Poly1305 encrypt never fails with a valid key and nonce",
    )
}

/// `XChaCha20Poly1305::new(key).decrypt(nonce, ciphertext)`. The contract
/// claims only that the result is the opening of the ciphertext: `None` when
/// the crate reports a failure (a forged or truncated ciphertext).
#[verifier::external_body]
fn aead_open(key: &[u8; 32], nonce: &[u8], ciphertext: &[u8]) -> (pt: Option<Vec<u8>>)
    requires
        nonce@.len() == 24,
    ensures
        match pt {
            Some(p) => xchacha_open(key@, nonce@, ciphertext@) == Some(p@),
            None => xchacha_open(key@, nonce@, ciphertext@) is None,
        },
{
    let cipher = chacha20poly1305::XChaCha20Poly1305::new(key.into());
    let n = chacha20poly1305::XNonce::from_slice(nonce);
    cipher.decrypt(n, ciphertext).ok()
}

/// What decrypting a blob (24-byte nonce, then ciphertext) under a key
/// gives.
pub open spec fn decrypt_outcome(key: Seq<u8>, blob: Seq<u8>) -> Result<Seq<u8>, CryptoError> {
    if blob.len() < 24 {
        Err(CryptoError::InvalidBlobLength)
    } else {
        match xchacha_open(key, blob.take(24), blob.skip(24)) {
            None => Err(CryptoError::DecryptionFailed),
            Some(p) => if p.len() == 32 {
                Ok(p)
            } else {
                Err(CryptoError::InvalidBlobLength)
            },
        }
    }
}

/// Seals the vault secret under the master key with a fresh random nonce;
/// the blob is the nonce followed by the ciphertext. Decrypting the blob
/// with the same key gives the secret back.
pub fn encrypt_vault_secret(master_key: &[u8; 32], vault_secret: &[u8; 32]) -> (blob: Vec<u8>)
    ensures
        blob@.len() == 72,
        blob@.skip(24) == xchacha_seal(master_key@, blob@.take(24), vault_secret@),
        decrypt_outcome(master_key@, blob@) == Ok::<Seq<u8>, CryptoError>(vault_secret@),
{
    let nonce_bytes: [u8; 24] = random_bytes();
    let ciphertext = aead_seal(master_key, &nonce_bytes, vault_secret);
    let mut blob: Vec<u8> = Vec::with_capacity(24 + ciphertext.len());
    for i in 0..24
        invariant
            blob@ =~= nonce_bytes@.take(i as int),
            nonce_bytes@.len() == 24,
    {
        blob.push(nonce_bytes[i]);
    }
    let n = ciphertext.len();
    for i in 0..n
        invariant
            n == ciphertext@.len(),
            blob@ =~= nonce_bytes@ + ciphertext@.take(i as int),
            nonce_bytes@.len() == 24,
    {
        blob.push(ciphertext[i]);
    }
    assert(ciphertext@.take(n as int) =~= ciphertext@);
    assert(blob@.take(24) =~= nonce_bytes@);
    assert(blob@.skip(24) =~= ciphertext@);
    blob
}

/// Opens a blob that `encrypt_vault_secret` made.
pub fn decrypt_vault_secret(master_key: &[u8; 32], blob: &[u8]) -> (r: Result<[u8; 32], CryptoError>)
    ensures
        match r {
            Ok(s) => decrypt_outcome(master_key@, blob@) == Ok::<Seq<u8>, CryptoError>(s@),
            Err(e) => decrypt_outcome(master_key@, blob@) == Err::<Seq<u8>, CryptoError>(e),
        },
{
    if blob.len() < 24 {
        return Err(CryptoError::InvalidBlobLength);
    }
    let nonce_bytes = vstd::slice::slice_subrange(blob, 0, 24);
    let ciphertext = vstd::slice::slice_subrange(blob, 24, blob.len());
    assert(nonce_bytes@ =~= blob@.take(24));
    assert(ciphertext@ =~= blob@.skip(24));
    let plaintext = match aead_open(master_key, nonce_bytes, ciphertext) {
        Some(p) => p,
        None => return Err(CryptoError::DecryptionFailed),
    };
    if plaintext.len() != 32 {
        return Err(CryptoError::InvalidBlobLength);
    }
    let mut out = [0u8; 32];
    for i in 0..32
        invariant
            plaintext@.len() == 32,
            forall|k: int| 0 <= k < i ==> out@[k] == plaintext@[k],
            out@.len() == 32,
    {
        out[i] = plaintext[i];
    }
    assert(out@ =~= plaintext@);
    Ok(out)
}

} // verus!
