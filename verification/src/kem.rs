//! The key-encapsulation mechanism behind hybrid encryption, supplied by the
//! Kyber-768 implementation of an outside crate and trusted through the
//! contracts below.

use vstd::prelude::*;

use crate::errors::KdtErr;

verus! {

/// Byte length of a Kyber-768 public key.
pub const KYBER_PUBLICKEY_LEN: usize = 1184;

/// Byte length of a Kyber-768 secret key.
pub const KYBER_SECRETKEY_LEN: usize = 2400;

/// Byte length of a Kyber-768 ciphertext (encapsulated secret).
pub const KYBER_CIPHERTEXT_LEN: usize = 1088;

/// Byte length of the shared secret, which is exactly an AES-256 key.
pub const KYBER_SHARED_LEN: usize = 32;

/// Whether these bytes form one Kyber keypair, as key generation delivers
/// them.
pub uninterp spec fn kyber_matched(pk: Seq<u8>, sk: Seq<u8>) -> bool;

/// What Kyber decapsulation computes from a ciphertext and a secret key: a
/// pure function of the two byte strings.
pub uninterp spec fn kyber_decap(ct: Seq<u8>, sk: Seq<u8>) -> Seq<u8>;

/// Relies on `pqc_kyber::keypair` driven by `rand::thread_rng`: a fresh
/// matched pair with the fixed Kyber-768 lengths; it fails only when the
/// random generator does.
#[verifier::external_body]
pub fn kyber_generate() -> (r: Result<(Vec<u8>, Vec<u8>), KdtErr>)
    ensures
        match r {
            Ok((pk, sk)) => {
                &&& pk@.len() == KYBER_PUBLICKEY_LEN
                &&& sk@.len() == KYBER_SECRETKEY_LEN
                &&& kyber_matched(pk@, sk@)
            },
            Err(e) => e == KdtErr::KeyGenerationError,
        },
{
    match pqc_kyber::keypair(&mut rand::thread_rng()) {
        Ok(keys) => Ok((keys.public.to_vec(), keys.secret.to_vec())),
        Err(_) => Err(KdtErr::KeyGenerationError),
    }
}

/// Relies on `pqc_kyber::encapsulate`: it rejects a public key of the wrong
/// length, and otherwise returns a fresh ciphertext together with the shared
/// secret that every matching secret key decapsulates from that ciphertext.
#[verifier::external_body]
pub fn kyber_encapsulate(pk: &[u8]) -> (r: Result<(Vec<u8>, Vec<u8>), KdtErr>)
    ensures
        match r {
            Ok((ct, ss)) => {
                &&& pk@.len() == KYBER_PUBLICKEY_LEN
                &&& ct@.len() == KYBER_CIPHERTEXT_LEN
                &&& ss@.len() == KYBER_SHARED_LEN
                &&& forall|sk: Seq<u8>| kyber_matched(pk@, sk) ==> kyber_decap(ct@, sk) == ss@
            },
            Err(e) => e == KdtErr::EncapsulationError,
        },
        pk@.len() != KYBER_PUBLICKEY_LEN ==> r is Err,
{
    match pqc_kyber::encapsulate(pk, &mut rand::thread_rng()) {
        Ok((ct, ss)) => Ok((ct.to_vec(), ss.to_vec())),
        Err(_) => Err(KdtErr::EncapsulationError),
    }
}

/// Relies on `pqc_kyber::decapsulate`: a pure function of ciphertext and
/// secret key that accepts exactly the Kyber-768 lengths.  A wrong but
/// well-formed key yields an implicitly rejected secret, not an error; the
/// mismatch surfaces later when the cipher fails to authenticate.
#[verifier::external_body]
pub fn kyber_decapsulate(ct: &[u8], sk: &[u8]) -> (r: Result<Vec<u8>, KdtErr>)
    ensures
        r is Ok <==> (ct@.len() == KYBER_CIPHERTEXT_LEN && sk@.len() == KYBER_SECRETKEY_LEN),
        match r {
            Ok(ss) => ss@ == kyber_decap(ct@, sk@) && ss@.len() == KYBER_SHARED_LEN,
            Err(e) => e == KdtErr::DecapsulationError,
        },
{
    match pqc_kyber::decapsulate(ct, sk) {
        Ok(ss) => Ok(ss.to_vec()),
        Err(_) => Err(KdtErr::DecapsulationError),
    }
}

} // verus!
