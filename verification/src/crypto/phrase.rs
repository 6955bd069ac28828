//! The 24-word recovery phrase that encodes the vault secret.

use vstd::prelude::*;
use crate::crypto::CryptoError;
use crate::crypto::keys::{hkdf_expand_32, hkdf_sha256_32};

verus! {

/// The English BIP-39 words that encode the given entropy.
pub uninterp spec fn bip39_english_words(entropy: Seq<u8>) -> Seq<Seq<char>>;

/// The entropy that a BIP-39 phrase (after NFKD normalisation and language
/// detection) encodes, if it is a valid phrase.
pub uninterp spec fn bip39_entropy_of(phrase: Seq<char>) -> Option<Seq<u8>>;

/// Words joined with single spaces.
pub open spec fn join_words(words: Seq<Seq<char>>) -> Seq<char>
    decreases words.len(),
{
    if words.len() == 0 {
        Seq::empty()
    } else if words.len() == 1 {
        words[0]
    } else {
        join_words(words.drop_last()) + " "@ + words.last()
    }
}

/// What decoding a phrase yields: the 32-byte secret it encodes, or
/// `InvalidPhrase`.
pub open spec fn decoded_secret(phrase: Seq<char>) -> Result<Seq<u8>, CryptoError> {
    match bip39_entropy_of(phrase) {
        Some(e) => if e.len() == 32 {
            Ok(e)
        } else {
            Err(CryptoError::InvalidPhrase)
        },
        None => Err(CryptoError::InvalidPhrase),
    }
}

/// `bip39::Mnemonic::from_entropy` on the 32-byte secret, then its `words`.
/// The contract claims: the words are the English BIP-39 encoding of the
/// secret; 256 bits of entropy give 24 words; and parsing the words joined
/// by spaces gives the entropy back (`to_entropy` inverts `from_entropy`).
/// 32 bytes is a valid entropy length, so the call never fails.
pub fn encode_phrase(vault_secret: &[u8; 32]) -> (words: Vec<String>)
    ensures
        words.deep_view() == bip39_english_words(vault_secret@),
        words@.len() == 24,
        decoded_secret(join_words(words.deep_view())) == Ok::<Seq<u8>, CryptoError>(vault_secret@),
{
    let words = bip39_words_of(vault_secret);
    words
}

#[verifier::external_body]
fn bip39_words_of(vault_secret: &[u8; 32]) -> (words: Vec<String>)
    ensures
        words.deep_view() == bip39_english_words(vault_secret@),
        words@.len() == 24,
        bip39_entropy_of(join_words(words.deep_view())) == Some(vault_secret@),
{
    let mnemonic = bip39::Mnemonic::from_entropy(vault_secret).expect(
        "32-byte entropy is always a valid BIP39 input",
    );
    mnemonic.words().map(str::to_string).collect()
}

/// `phrase.parse::<bip39::Mnemonic>()` followed by `to_entropy`. The
/// contract claims only that the result is the entropy that the phrase
/// encodes, or `None` when the crate rejects the phrase.
#[verifier::external_body]
fn bip39_entropy(phrase: &str) -> (r: Option<Vec<u8>>)
    ensures
        match r {
            Some(e) => bip39_entropy_of(phrase@) == Some(e@),
            None => bip39_entropy_of(phrase@) is None,
        },
{
    match phrase.parse::<bip39::Mnemonic>() {
        Ok(m) => Some(m.to_entropy()),
        Err(_) => None,
    }
}

/// The vault secret that a recovery phrase encodes.
pub fn decode_phrase(phrase: &str) -> (r: Result<[u8; 32], CryptoError>)
    ensures
        match r {
            Ok(s) => decoded_secret(phrase@) == Ok::<Seq<u8>, CryptoError>(s@),
            Err(e) => decoded_secret(phrase@) == Err::<Seq<u8>, CryptoError>(e),
        },
{
    match bip39_entropy(phrase) {
        None => Err(CryptoError::InvalidPhrase),
        Some(e) => {
            if e.len() != 32 {
                return Err(CryptoError::InvalidPhrase);
            }
            let mut out = [0u8; 32];
            for i in 0..32
                invariant
                    e@.len() == 32,
                    forall|k: int| 0 <= k < i ==> out@[k] == e@[k],
                    out@.len() == 32,
            {
                out[i] = e[i];
            }
            assert(out@ =~= e@);
            Ok(out)
        },
    }
}

pub open spec fn phrase_verify_info() -> Seq<char> {
    "manila-phrase-verify-v1"@
}

/// HKDF-derived check value stored alongside the encrypted vault secret.
/// Lets a restore reject a wrong phrase before re-encrypting. Its own info
/// string keeps it apart from the data, ingest and sync keys.
pub fn derive_phrase_verifier(vault_secret: &[u8; 32]) -> (v: [u8; 32])
    ensures
        v@ == hkdf_sha256_32(vault_secret@, phrase_verify_info()),
{
    hkdf_expand_32(vault_secret, "manila-phrase-verify-v1")
}

/// Words joined with single spaces, as the user writes the phrase down.
pub fn phrase_text(words: &Vec<String>) -> (s: String)
    ensures
        s@ == join_words(words.deep_view()),
{
    let mut s = String::new();
    let n = words.len();
    for i in 0..n
        invariant
            n == words@.len(),
            s@ == join_words(words.deep_view().take(i as int)),
    {
        proof {
            let w = words.deep_view();
            assert(w.take(i + 1).drop_last() =~= w.take(i as int));
            assert(w.take(i + 1).last() == words@[i as int]@);
            if i == 0 {
                assert(w.take(1).len() == 1);
            }
        }
        if i > 0 {
            s.append(" ");
        }
        s.append(words[i].as_str());
        proof {
            if i == 0 {
                assert(s@ =~= words@[0]@);
            }
        }
    }
    assert(words.deep_view().take(n as int) =~= words.deep_view());
    s
}

} // verus!
