//! The working keys, expanded from the vault secret.

use vstd::prelude::*;

verus! {

/// HKDF-SHA256 (no salt) of input key material, expanded to 32 bytes under
/// the UTF-8 bytes of an info string.
pub uninterp spec fn hkdf_sha256_32(ikm: Seq<u8>, info: Seq<char>) -> Seq<u8>;

/// `hkdf::Hkdf::<sha2::Sha256>::new(None, ikm)` followed by `expand` into a
/// 32-byte buffer. The contract claims only that the output is that function
/// of the key material and the info string; a 32-byte output is within the
/// 255 * 32 bytes that `expand` accepts, so it never fails.
#[verifier::external_body]
pub(crate) fn hkdf_expand_32(ikm: &[u8; 32], info: &str) -> (okm: [u8; 32])
    ensures
        okm@ == hkdf_sha256_32(ikm@, info@),
{
    let hk = hkdf::Hkdf::<sha2::Sha256>::new(None, ikm);
    let mut okm = [0u8; 32];
    hk.expand(info.as_bytes(), &mut okm).expect("HKDF expand with 32-byte output never fails");
    okm
}

pub open spec fn data_key_info() -> Seq<char> {
    "manila-data-key-v1"@
}

pub open spec fn ingest_key_info() -> Seq<char> {
    "manila-ingest-keypair-v1"@
}

pub open spec fn sync_key_info() -> Seq<char> {
    "manila-sync-auth-key-v1"@
}

pub struct DerivedKeys {
    pub data_key: [u8; 32],
    pub ingest_secret: [u8; 32],
    pub sync_signing_seed: [u8; 32],
}

/// The three keys that a vault secret determines.
pub open spec fn keys_of(vault_secret: Seq<u8>, data_key: Seq<u8>, ingest_secret: Seq<u8>, sync_signing_seed: Seq<u8>) -> bool {
    &&& data_key == hkdf_sha256_32(vault_secret, data_key_info())
    &&& ingest_secret == hkdf_sha256_32(vault_secret, ingest_key_info())
    &&& sync_signing_seed == hkdf_sha256_32(vault_secret, sync_key_info())
}

/// Expands the vault secret into the data key, the ingest secret and the
/// sync signing seed, each under its own info string.
pub fn derive_keys(vault_secret: &[u8; 32]) -> (k: DerivedKeys)
    ensures
        keys_of(vault_secret@, k.data_key@, k.ingest_secret@, k.sync_signing_seed@),
{
    let data_key = hkdf_expand_32(vault_secret, "manila-data-key-v1");
    let ingest_secret = hkdf_expand_32(vault_secret, "manila-ingest-keypair-v1");
    let sync_signing_seed = hkdf_expand_32(vault_secret, "manila-sync-auth-key-v1");
    DerivedKeys { data_key, ingest_secret, sync_signing_seed }
}

/// Deriving twice from one secret gives the same keys.
pub proof fn derive_keys_is_deterministic(secret: Seq<u8>, a: DerivedKeys, b: DerivedKeys)
    requires
        keys_of(secret, a.data_key@, a.ingest_secret@, a.sync_signing_seed@),
        keys_of(secret, b.data_key@, b.ingest_secret@, b.sync_signing_seed@),
    ensures
        a.data_key@ == b.data_key@,
        a.ingest_secret@ == b.ingest_secret@,
        a.sync_signing_seed@ == b.sync_signing_seed@,
{
}

} // verus!
