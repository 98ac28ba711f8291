//! The symmetric half of hybrid encryption: AES-256-GCM sealing and opening,
//! supplied by an outside crate and trusted through the contracts below.

use aes_gcm::aead::{Aead, AeadCore, KeyInit, OsRng};
use aes_gcm::{Aes256Gcm, Key};
use generic_array::GenericArray;
use vstd::prelude::*;

use crate::errors::KdtErr;

verus! {

/// Byte length of an AES-256 key.
pub const AEAD_KEY_LEN: usize = 32;

/// Byte length of the GCM nonce.
pub const AEAD_NONCE_LEN: usize = 12;

/// Byte length of the GCM authentication tag appended to the ciphertext.
pub const AEAD_TAG_LEN: usize = 16;

/// What AES-256-GCM sealing produces from key, nonce and plaintext: a pure
/// function of the three (the ciphertext with the tag appended).
pub uninterp spec fn aead_seal(key: Seq<u8>, nonce: Seq<u8>, pt: Seq<u8>) -> Seq<u8>;

/// What AES-256-GCM opening makes of key, nonce and ciphertext: the sealed
/// plaintext when the authentication tag verifies, nothing otherwise.
pub uninterp spec fn aead_open(key: Seq<u8>, nonce: Seq<u8>, ct: Seq<u8>) -> Option<Seq<u8>>;

/// Relies on `aes_gcm::Aes256Gcm::encrypt` (no associated data):
/// deterministic in key, nonce and plaintext; it refuses only a plaintext
/// beyond the GCM length bound of 2^36 bytes, and what it seals, opening
/// under the same key and nonce gives back.
#[verifier::external_body]
pub fn aead_seal_bytes(key: &[u8], nonce: &[u8], pt: &[u8]) -> (r: Result<Vec<u8>, KdtErr>)
    requires
        key@.len() == AEAD_KEY_LEN,
        nonce@.len() == AEAD_NONCE_LEN,
    ensures
        match r {
            Ok(ct) => {
                &&& ct@ == aead_seal(key@, nonce@, pt@)
                &&& ct@.len() == pt@.len() + AEAD_TAG_LEN
                &&& aead_open(key@, nonce@, ct@) == Some(pt@)
            },
            Err(e) => e == KdtErr::EncryptionError,
        },
        pt@.len() <= 0x10_0000_0000 ==> r is Ok,
{
    let cipher = Aes256Gcm::new(Key::<Aes256Gcm>::from_slice(key));
    match cipher.encrypt(GenericArray::from_slice(nonce), pt) {
        Ok(ct) => Ok(ct),
        Err(_) => Err(KdtErr::EncryptionError),
    }
}

/// Relies on `aes_gcm::Aes256Gcm::decrypt` (no associated data):
/// deterministic in key, nonce and ciphertext; it succeeds exactly when the
/// authentication tag verifies, and then returns the sealed plaintext.
#[verifier::external_body]
pub fn aead_open_bytes(key: &[u8], nonce: &[u8], ct: &[u8]) -> (r: Result<Vec<u8>, KdtErr>)
    requires
        key@.len() == AEAD_KEY_LEN,
        nonce@.len() == AEAD_NONCE_LEN,
    ensures
        match r {
            Ok(pt) => aead_open(key@, nonce@, ct@) == Some(pt@),
            Err(e) => aead_open(key@, nonce@, ct@) is None && e == KdtErr::AuthenticationError,
        },
{
    let cipher = Aes256Gcm::new(Key::<Aes256Gcm>::from_slice(key));
    match cipher.decrypt(GenericArray::from_slice(nonce), ct) {
        Ok(pt) => Ok(pt),
        Err(_) => Err(KdtErr::AuthenticationError),
    }
}

/// Relies on `Aes256Gcm::generate_nonce` with the operating-system random
/// generator: twelve bytes drawn fresh on every call; nothing more is
/// promised of their value.
#[verifier::external_body]
pub fn aead_fresh_nonce() -> (r: Vec<u8>)
    ensures
        r@.len() == AEAD_NONCE_LEN,
{
    Aes256Gcm::generate_nonce(&mut OsRng).to_vec()
}

} // verus!
