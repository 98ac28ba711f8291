//! The hybrid crypto engine: Kyber encapsulation composed with AES-256-GCM
//! sealing.  The shared secret the KEM establishes is used directly as the
//! symmetric key, a fresh random nonce is drawn per call, and no associated
//! data is sealed along.

use vstd::prelude::*;

use crate::encrypted_message::{
    lemma_message_text_round_trip, message_parse, message_text, KdtEncryptedMessage,
};
use crate::errors::KdtErr;
use crate::kem::{
    kyber_decap, kyber_decapsulate, kyber_encapsulate, kyber_matched, KYBER_CIPHERTEXT_LEN,
    KYBER_PUBLICKEY_LEN, KYBER_SECRETKEY_LEN,
};
use crate::sealing::{
    aead_fresh_nonce, aead_open, aead_open_bytes, aead_seal_bytes, AEAD_NONCE_LEN, AEAD_TAG_LEN,
};
use crate::text::{bytes_to_string_lossy, utf8_lossy};
use vstd::string::StrSliceExecFns;
use vstd::utf8::encode_utf8;

verus! {

/// What an encrypted envelope yields under a private key: the shared secret
/// decapsulated from the encapsulated secret, used to open the ciphertext
/// under the stored nonce.
pub open spec fn decryption_of(es: Seq<u8>, cm: Seq<u8>, nonce: Seq<u8>, sk: Seq<u8>) -> Option<
    Seq<u8>,
> {
    aead_open(kyber_decap(es, sk), nonce, cm)
}

/// The envelope carries exactly the UTF-8 bytes of `text` for every private
/// key that matches `pk`.
pub open spec fn envelope_for(
    es: Seq<u8>,
    cm: Seq<u8>,
    nonce: Seq<u8>,
    pk: Seq<u8>,
    text: Seq<char>,
) -> bool {
    forall|sk: Seq<u8>|
        kyber_matched(pk, sk) ==> decryption_of(es, cm, nonce, sk) == Some(encode_utf8(text))
}

/// Core cryptography handler: everything Kyber and AES.  Signatures are the
/// signage handler's business.
pub struct KdtCryptoHandler;

impl KdtCryptoHandler {
    /// Encrypts a string of text against the given Kyber public key.  The
    /// KEM establishes the symmetric key; AES-256-GCM seals the text under a
    /// nonce drawn fresh for this one call.  Fails with
    /// [`KdtErr::EncapsulationError`] when the KEM rejects the public key
    /// (always, when its length is wrong) and with
    /// [`KdtErr::EncryptionError`] when sealing fails, which the cipher
    /// promises only of plaintexts beyond the GCM length bound.
    pub fn encrypt_text(text: &str, pubkey: &Vec<u8>) -> (r: Result<KdtEncryptedMessage, KdtErr>)
        ensures
            match r {
                Ok(m) => {
                    &&& pubkey@.len() == KYBER_PUBLICKEY_LEN
                    &&& m@.encrypted_secret.len() == KYBER_CIPHERTEXT_LEN
                    &&& m@.nonce.len() == AEAD_NONCE_LEN
                    &&& m@.encrypted_message.len() == encode_utf8(text@).len() + AEAD_TAG_LEN
                    &&& envelope_for(
                        m@.encrypted_secret,
                        m@.encrypted_message,
                        m@.nonce,
                        pubkey@,
                        text@,
                    )
                },
                Err(e) => {
                    &&& (e == KdtErr::EncapsulationError || e == KdtErr::EncryptionError)
                    &&& (e == KdtErr::EncryptionError ==> encode_utf8(text@).len()
                        > 0x10_0000_0000)
                },
            },
            pubkey@.len() != KYBER_PUBLICKEY_LEN ==> r == Err::<
                KdtEncryptedMessage,
                KdtErr,
            >(KdtErr::EncapsulationError),
    {
        let (encrypted_secret, shared) = match kyber_encapsulate(pubkey.as_slice()) {
            Ok(p) => p,
            Err(_) => {
                return Err(KdtErr::EncapsulationError);
            },
        };
        let nonce = aead_fresh_nonce();
        let plaintext = text.as_bytes_vec();
        let encrypted_message = match aead_seal_bytes(
            shared.as_slice(),
            nonce.as_slice(),
            plaintext.as_slice(),
        ) {
            Ok(c) => c,
            Err(_) => {
                return Err(KdtErr::EncryptionError);
            },
        };
        let m = KdtEncryptedMessage::new(encrypted_secret, encrypted_message, nonce);
        proof {
            assert forall|sk: Seq<u8>| kyber_matched(pubkey@, sk) implies decryption_of(
                m@.encrypted_secret,
                m@.encrypted_message,
                m@.nonce,
                sk,
            ) == Some(encode_utf8(text@)) by {
                assert(kyber_decap(m@.encrypted_secret, sk) == shared@);
            }
        }
        Ok(m)
    }

    /// Decrypts a message with the given Kyber private key: decapsulates the
    /// shared secret, opens the ciphertext under the stored nonce, and reads
    /// the bytes back as text with lossy UTF-8 decoding, so decoding never
    /// fails on its own.  Fails with [`KdtErr::DecapsulationError`] exactly
    /// when the encapsulated secret or the private key has the wrong length,
    /// and with [`KdtErr::AuthenticationError`] exactly when the nonce is
    /// malformed or the authentication tag refuses the ciphertext — the
    /// expected outcome under a wrong key.
    pub fn decrypt_msg(message: &KdtEncryptedMessage, privkey: &Vec<u8>) -> (r: Result<
        String,
        KdtErr,
    >)
        ensures
            r is Ok <==> {
                &&& message@.encrypted_secret.len() == KYBER_CIPHERTEXT_LEN
                &&& privkey@.len() == KYBER_SECRETKEY_LEN
                &&& message@.nonce.len() == AEAD_NONCE_LEN
                &&& decryption_of(
                    message@.encrypted_secret,
                    message@.encrypted_message,
                    message@.nonce,
                    privkey@,
                ) is Some
            },
            match r {
                Ok(s) => {
                    let pt = decryption_of(
                        message@.encrypted_secret,
                        message@.encrypted_message,
                        message@.nonce,
                        privkey@,
                    ).unwrap();
                    &&& s@ == utf8_lossy(pt)
                    &&& forall|t: Seq<char>| pt == encode_utf8(t) ==> s@ == t
                },
                Err(e) => e == (if message@.encrypted_secret.len() != KYBER_CIPHERTEXT_LEN
                    || privkey@.len() != KYBER_SECRETKEY_LEN {
                    KdtErr::DecapsulationError
                } else {
                    KdtErr::AuthenticationError
                }),
            },
    {
        let shared = match kyber_decapsulate(
            message.encrypted_secret.as_slice(),
            privkey.as_slice(),
        ) {
            Ok(s) => s,
            Err(_) => {
                return Err(KdtErr::DecapsulationError);
            },
        };
        if message.nonce.len() != AEAD_NONCE_LEN {
            return Err(KdtErr::AuthenticationError);
        }
        let plaintext = match aead_open_bytes(
            shared.as_slice(),
            message.nonce.as_slice(),
            message.encrypted_message.as_slice(),
        ) {
            Ok(p) => p,
            Err(_) => {
                return Err(KdtErr::AuthenticationError);
            },
        };
        Ok(bytes_to_string_lossy(plaintext.as_slice()))
    }
}

/// Hybrid round trip through the armor too: the rendered message envelope
/// of an encryption for `pk` parses back to the same three byte fields, and
/// they decrypt under any matching private key to the UTF-8 bytes of the
/// original text — for all texts, the empty one included.
pub proof fn lemma_envelope_decrypts(
    es: Seq<u8>,
    cm: Seq<u8>,
    nonce: Seq<u8>,
    pk: Seq<u8>,
    sk: Seq<u8>,
    text: Seq<char>,
)
    requires
        kyber_matched(pk, sk),
        envelope_for(es, cm, nonce, pk, text),
    ensures
        message_parse(message_text(es, cm, nonce)) matches Some(m) && decryption_of(
            m.encrypted_secret,
            m.encrypted_message,
            m.nonce,
            sk,
        ) == Some(encode_utf8(text)),
{
    lemma_message_text_round_trip(es, cm, nonce);
}

/// Hybrid round trip: an envelope produced for a public key decrypts, under
/// any matching private key, to the UTF-8 bytes of the text it was sealed
/// over — for all texts, the empty one included.
pub proof fn lemma_hybrid_round_trip(
    es: Seq<u8>,
    cm: Seq<u8>,
    nonce: Seq<u8>,
    pk: Seq<u8>,
    sk: Seq<u8>,
    text: Seq<char>,
)
    requires
        kyber_matched(pk, sk),
        envelope_for(es, cm, nonce, pk, text),
    ensures
        decryption_of(es, cm, nonce, sk) == Some(encode_utf8(text)),
{
}

} // verus!
