//! The signature engine: Dilithium signing and verification, supplied by an
//! outside crate and trusted through the contracts below.
//!
//! The signature library rebuilds no keypair from exported bytes: signing
//! needs the keypair value that key generation returned, so that value is
//! carried beside its exported byte form and lives only in the session that
//! generated it.  Verification works from public key bytes alone.

use vstd::prelude::*;

use crate::errors::KdtErr;
use crate::signed_message::{
    lemma_signed_round_trip, sig_marker, signed_parse, signed_text, KdtSignedMessage,
};
use crate::text::marker_free;
use vstd::string::StrSliceExecFns;
use vstd::string::StringExecFns;
use vstd::utf8::encode_utf8;

verus! {

/// Byte length of a Dilithium (mode 3) public key.
pub const DILITHIUM_PUBLICKEY_LEN: usize = 1952;

/// Byte length of a Dilithium (mode 3) secret key.
pub const DILITHIUM_SECRETKEY_LEN: usize = 4000;

/// Byte length of a Dilithium (mode 3) signature.
pub const DILITHIUM_SIGNATURE_LEN: usize = 3293;

#[verifier::external_type_specification]
#[verifier::external_body]
pub struct ExDilithiumKeypair(pqc_dilithium::Keypair);

/// The public key bytes a signing keypair holds.
pub uninterp spec fn dilithium_public(kp: pqc_dilithium::Keypair) -> Seq<u8>;

/// The secret key bytes a signing keypair holds.
pub uninterp spec fn dilithium_secret(kp: pqc_dilithium::Keypair) -> Seq<u8>;

/// Whether the Dilithium verifier accepts the signature over the message
/// bytes under the public key: a pure function of the three byte strings.
pub uninterp spec fn dilithium_verify_ok(sig: Seq<u8>, msg: Seq<u8>, pk: Seq<u8>) -> bool;

/// Relies on `pqc_dilithium::Keypair::generate`: a fresh signing keypair
/// holding keys of the fixed mode-3 lengths.
#[verifier::external_body]
pub fn dilithium_generate() -> (kp: pqc_dilithium::Keypair)
    ensures
        dilithium_public(kp).len() == DILITHIUM_PUBLICKEY_LEN,
        dilithium_secret(kp).len() == DILITHIUM_SECRETKEY_LEN,
{
    pqc_dilithium::Keypair::generate()
}

/// Relies on the `public` field of `pqc_dilithium::Keypair`: the keypair's
/// public key bytes, a fixed-length array.
#[verifier::external_body]
pub fn dilithium_public_bytes(kp: &pqc_dilithium::Keypair) -> (r: Vec<u8>)
    ensures
        r@ == dilithium_public(*kp),
        r@.len() == DILITHIUM_PUBLICKEY_LEN,
{
    kp.public.to_vec()
}

/// Relies on `pqc_dilithium::Keypair::expose_secret`: the keypair's secret
/// key bytes, a fixed-length array.
#[verifier::external_body]
pub fn dilithium_secret_bytes(kp: &pqc_dilithium::Keypair) -> (r: Vec<u8>)
    ensures
        r@ == dilithium_secret(*kp),
        r@.len() == DILITHIUM_SECRETKEY_LEN,
{
    kp.expose_secret().to_vec()
}

/// Relies on `pqc_dilithium::Keypair::sign` and the crate's documented
/// promise that `verify` accepts what `sign` produced under the signing
/// keypair's public key.
#[verifier::external_body]
pub fn dilithium_sign(kp: &pqc_dilithium::Keypair, msg: &[u8]) -> (sig: Vec<u8>)
    ensures
        sig@.len() == DILITHIUM_SIGNATURE_LEN,
        dilithium_verify_ok(sig@, msg@, dilithium_public(*kp)),
{
    kp.sign(msg).to_vec()
}

/// Relies on `pqc_dilithium::verify`: deterministic in signature, message
/// and public key; malformed signature bytes are an ordinary rejection.  The
/// library unpacks the public key by fixed offsets before any length check,
/// so only keys of the exact mode-3 length may reach it; the caller
/// screens the length first.
#[verifier::external_body]
pub fn dilithium_verify(sig: &[u8], msg: &[u8], pk: &[u8]) -> (r: bool)
    requires
        pk@.len() == DILITHIUM_PUBLICKEY_LEN,
    ensures
        r == dilithium_verify_ok(sig@, msg@, pk@),
{
    pqc_dilithium::verify(sig, msg, pk).is_ok()
}

/// Base Dilithium signature handler.
pub struct KdtSignageHandler;

impl KdtSignageHandler {
    /// Signs the exact UTF-8 bytes of `text` with the session signing
    /// keypair.  The signature in the returned message verifies under the
    /// keypair's public key — the first half of the signature round trip;
    /// [`KdtSignageHandler::verify`] states the second.
    pub fn sign_text(text: &str, signkey: &pqc_dilithium::Keypair) -> (r: KdtSignedMessage)
        ensures
            r.message@ == text@,
            r.signature@.len() == DILITHIUM_SIGNATURE_LEN,
            dilithium_verify_ok(r.signature@, encode_utf8(text@), dilithium_public(*signkey)),
    {
        let message_bytes = text.as_bytes_vec();
        let signature = dilithium_sign(signkey, message_bytes.as_slice());
        KdtSignedMessage::new(String::from_str(text), signature)
    }

    /// Verifies a signed message against a public key: true exactly when the
    /// key has the Dilithium public-key length and the verifier accepts the
    /// signature over the message's UTF-8 bytes.  A wrong-length key, like
    /// any library rejection, reads as false — never an error, and never a
    /// crash.
    pub fn verify(signed_message: &KdtSignedMessage, pubkey: &Vec<u8>) -> (r: bool)
        ensures
            r == (pubkey@.len() == DILITHIUM_PUBLICKEY_LEN && dilithium_verify_ok(
                signed_message.signature@,
                encode_utf8(signed_message.message@),
                pubkey@,
            )),
    {
        if pubkey.len() != DILITHIUM_PUBLICKEY_LEN {
            return false;
        }
        let message_bytes = signed_message.message.as_str().as_bytes_vec();
        dilithium_verify(
            signed_message.signature.as_slice(),
            message_bytes.as_slice(),
            pubkey.as_slice(),
        )
    }
}

/// Signature round trip through the envelope: a signed message rendered
/// over a text free of the signature marker parses back to the same text
/// and signature, and a signature the verifier accepts is still accepted
/// over what the envelope preserved.
pub proof fn lemma_signed_envelope_verifies(
    kp: pqc_dilithium::Keypair,
    text: Seq<char>,
    sig: Seq<u8>,
)
    requires
        marker_free(text, sig_marker()),
        dilithium_verify_ok(sig, encode_utf8(text), dilithium_public(kp)),
    ensures
        signed_parse(signed_text(text, sig)) matches Some(p) && dilithium_verify_ok(
            p.1,
            encode_utf8(p.0),
            dilithium_public(kp),
        ),
{
    lemma_signed_round_trip(text, sig);
}

} // verus!
