//! Password stretching.

use vstd::prelude::*;

verus! {

/// Argon2id (version 0x13, 65 536 KiB of memory, 3 passes, 1 lane, 32-byte
/// output) of a password under a salt.
pub uninterp spec fn argon2id_key(password: Seq<u8>, salt: Seq<u8>) -> Seq<u8>;

/// The master key for a password: `argon2::Argon2::hash_password_into` with
/// Argon2id v0x13, m = 65 536, t = 3, p = 1 and a 32-byte output. The
/// contract claims only that the key is that function of password and salt;
/// the crate refuses passwords longer than `u32::MAX` bytes, so those are
/// left out.
#[verifier::external_body]
pub fn derive_master_key(password: &[u8], salt: &[u8; 32]) -> (key: [u8; 32])
    requires
        password@.len() <= 0xffff_ffff,
    ensures
        key@ == argon2id_key(password@, salt@),
{
    let params = argon2::Params::new(65_536, 3, 1, Some(32)).expect(
        "argon2 params are valid constants",
    );
    let argon2 = argon2::Argon2::new(argon2::Algorithm::Argon2id, argon2::Version::V0x13, params);
    let mut output = [0u8; 32];
    argon2.hash_password_into(password, salt, &mut output).expect(
        "argon2 hash into fixed-size output never fails on valid params",
    );
    output
}

} // verus!
