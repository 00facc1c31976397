//! The credential vault: authenticated encryption of secret text under a
//! caller-supplied 256-bit key. A stored blob is the 12-byte nonce followed
//! by the authenticated ciphertext; the key is never derived, cached or
//! logged here.

use vstd::prelude::*;

verus! {

use aes_gcm::KeyInit;
use aes_gcm::aead::Aead;
use vstd::slice::slice_subrange;
use vstd::string::StrSliceExecFns;
use vstd::utf8::{decode_utf8, encode_utf8, valid_utf8};
use crate::rng::random_bytes;

/// What AES-256-GCM seals a plaintext to, under a key and nonce: named, not
/// written out — the cipher is the outside crate's work.
pub uninterp spec fn gcm_seal(key: Seq<u8>, nonce: Seq<u8>, plain: Seq<u8>) -> Seq<u8>;

/// What AES-256-GCM opens a ciphertext to: the plaintext when the
/// authentication tag verifies, nothing otherwise.
pub uninterp spec fn gcm_open(key: Seq<u8>, nonce: Seq<u8>, cipher_text: Seq<u8>) -> Option<
    Seq<u8>,
>;

/// The GCM plaintext length bound: sealing fails past it.
pub open spec fn gcm_plain_max() -> nat {
    0x10_0000_0000
}

/// Relies on `aes_gcm::Aes256Gcm`: `KeyInit::new_from_slice` accepts every
/// 32-byte key, and `Aead::encrypt` appends the 16-byte tag and fails only
/// for plaintexts past the GCM length bound; what it returns decrypts back to
/// the plaintext under the same key and nonce.
#[verifier::external_body]
fn aes_gcm_seal(key: &[u8], nonce: &[u8], plain: &[u8]) -> (r: Option<Vec<u8>>)
    requires
        key@.len() == 32,
        nonce@.len() == 12,
    ensures
        match r {
            Some(c) => c@ == gcm_seal(key@, nonce@, plain@) && c@.len() == plain@.len() + 16
                && gcm_open(key@, nonce@, c@) == Some(plain@),
            None => plain@.len() > gcm_plain_max(),
        },
{
    let cipher = match aes_gcm::Aes256Gcm::new_from_slice(key) {
        Ok(c) => c,
        Err(_) => return None,
    };
    cipher.encrypt(aes_gcm::Nonce::from_slice(nonce), plain).ok()
}

/// Relies on `aes_gcm::Aes256Gcm`: `Aead::decrypt` returns the sealed
/// plaintext when the authentication tag verifies and an error otherwise.
#[verifier::external_body]
fn aes_gcm_unseal(key: &[u8], nonce: &[u8], cipher_text: &[u8]) -> (r: Option<Vec<u8>>)
    requires
        key@.len() == 32,
        nonce@.len() == 12,
    ensures
        match r {
            Some(p) => gcm_open(key@, nonce@, cipher_text@) == Some(p@),
            None => gcm_open(key@, nonce@, cipher_text@) is None,
        },
{
    let cipher = match aes_gcm::Aes256Gcm::new_from_slice(key) {
        Ok(c) => c,
        Err(_) => return None,
    };
    cipher.decrypt(aes_gcm::Nonce::from_slice(nonce), cipher_text).ok()
}

/// Relies on `String::from_utf8`: succeeds exactly on valid UTF-8 and decodes
/// it.
#[verifier::external_body]
fn bytes_to_string(bytes: Vec<u8>) -> (r: Option<String>)
    ensures
        match r {
            Some(s) => valid_utf8(bytes@) && s@ == decode_utf8(bytes@),
            None => !valid_utf8(bytes@),
        },
{
    String::from_utf8(bytes).ok()
}

/// Why a vault operation failed: a blob shorter than the nonce, a failed
/// authentication check (tampering or the wrong key), sealed bytes that are
/// not text, or a plaintext past the cipher's length bound.
#[derive(Debug, Clone, PartialEq, Eq, Structural)]
pub enum VaultError {
    TooShort,
    AuthFailed,
    InvalidText,
    TooLong,
}

/// A blob that carries `plain` sealed under `key`: its first 12 bytes are the
/// nonce and the remainder opens to the plaintext's UTF-8 bytes.
pub open spec fn is_sealed_blob(key: Seq<u8>, blob: Seq<u8>, plain: Seq<char>) -> bool {
    blob.len() >= 12 && gcm_open(key, blob.take(12), blob.skip(12)) == Some(encode_utf8(plain))
}

/// What decrypting a blob yields, for every byte string: the unique outcome
/// the nonce-prefix layout and the cipher dictate.
pub open spec fn spec_decrypt(key: Seq<u8>, data: Seq<u8>) -> Result<Seq<char>, VaultError> {
    if data.len() < 12 {
        Err(VaultError::TooShort)
    } else {
        match gcm_open(key, data.take(12), data.skip(12)) {
            None => Err(VaultError::AuthFailed),
            Some(plain_bytes) => if valid_utf8(plain_bytes) {
                Ok(decode_utf8(plain_bytes))
            } else {
                Err(VaultError::InvalidText)
            },
        }
    }
}

/// Seal a secret under the key: a fresh random 96-bit nonce per call,
/// followed by the authenticated ciphertext. Fails only for plaintexts past
/// the cipher's length bound.
pub fn encrypt_token(key: &[u8; 32], plaintext: &str) -> (r: Result<Vec<u8>, VaultError>)
    ensures
        match r {
            Ok(blob) => is_sealed_blob(key@, blob@, plaintext@) && blob@.len() == encode_utf8(
                plaintext@,
            ).len() + 28,
            Err(e) => e == VaultError::TooLong && encode_utf8(plaintext@).len() > gcm_plain_max(),
        },
{
    let nonce = random_bytes(12);
    let plain_bytes = plaintext.as_bytes_vec();
    match aes_gcm_seal(key.as_slice(), nonce.as_slice(), plain_bytes.as_slice()) {
        None => Err(VaultError::TooLong),
        Some(cipher_text) => {
            let mut blob = nonce;
            let mut tail = cipher_text;
            blob.append(&mut tail);
            proof {
                assert(blob@.take(12) =~= nonce@);
                assert(blob@.skip(12) =~= gcm_seal(key@, nonce@, plain_bytes@));
            }
            Ok(blob)
        },
    }
}

/// Open a blob sealed by `encrypt_token`: exactly `spec_decrypt` of its
/// bytes. A blob under 12 bytes, a failed authentication check and sealed
/// bytes that are not valid text each yield their own error.
pub fn decrypt_token(key: &[u8; 32], data: &[u8]) -> (r: Result<String, VaultError>)
    ensures
        match r {
            Ok(s) => spec_decrypt(key@, data@) == Ok::<Seq<char>, VaultError>(s@),
            Err(e) => spec_decrypt(key@, data@) == Err::<Seq<char>, VaultError>(e),
        },
{
    if data.len() < 12 {
        return Err(VaultError::TooShort);
    }
    let nonce = slice_subrange(data, 0, 12);
    let cipher_text = slice_subrange(data, 12, data.len());
    proof {
        assert(nonce@ =~= data@.take(12));
        assert(cipher_text@ =~= data@.skip(12));
    }
    match aes_gcm_unseal(key.as_slice(), nonce, cipher_text) {
        None => Err(VaultError::AuthFailed),
        Some(plain_bytes) => match bytes_to_string(plain_bytes) {
            None => Err(VaultError::InvalidText),
            Some(s) => Ok(s),
        },
    }
}

/// Law: decrypting a blob sealed under a key recovers the plaintext exactly,
/// whatever nonce the sealing drew.
pub proof fn lemma_vault_round_trip(key: Seq<u8>, blob: Seq<u8>, plain: Seq<char>)
    requires
        is_sealed_blob(key, blob, plain),
    ensures
        spec_decrypt(key, blob) == Ok::<Seq<char>, VaultError>(plain),
{
    vstd::utf8::encode_utf8_valid_utf8(plain);
    vstd::utf8::encode_utf8_decode_utf8(plain);
}

} // verus!
