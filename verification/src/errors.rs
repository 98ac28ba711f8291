//! The error taxonomy shared by every fallible operation of the crate.

use vstd::prelude::*;

verus! {

/// Typed failure returned by the library.  No operation of the crate panics:
/// malformed input, wrong keys and duplicate ids all surface as one of these
/// variants so that the caller decides how to report them.
#[derive(Clone, Copy, Debug, PartialEq, Eq, Structural)]
pub enum KdtErr {
    /// More than one command-line action was requested at once.
    TooManyArgs,
    /// Text handed to the base64 decoder is not the output of the encoder.
    MalformedEncoding,
    /// An armor envelope is missing its markers or has the wrong field count.
    EnvelopeFormat,
    /// The KEM could not encapsulate against the given public key.
    EncapsulationError,
    /// The AEAD cipher refused to seal the plaintext.
    EncryptionError,
    /// The KEM could not decapsulate: the private key bytes are malformed.
    DecapsulationError,
    /// AEAD tag verification failed: tampered ciphertext or a wrong key.
    AuthenticationError,
    /// The random generator failed while producing a fresh keyset.
    KeyGenerationError,
    /// The signing keypair is not available in this session.
    SigningKeyUnavailable,
    /// A record with the same id is already present in the database.
    KeyAlreadyExists,
    /// No single record with the requested id exists in the database.
    BadKeyId,
}

impl KdtErr {
    /// A human-readable description of the failure.
    pub fn message(&self) -> (r: &'static str)
        ensures
            r@.len() > 0,
    {
        let s: &'static str = match self {
            KdtErr::TooManyArgs => "Too many arguments were passed! You can only use one argument at a time.",
            KdtErr::MalformedEncoding => "The text is not valid base64 data!",
            KdtErr::EnvelopeFormat => "The envelope is malformed!",
            KdtErr::EncapsulationError => "Failed to encapsulate against the public key!",
            KdtErr::EncryptionError => "Failed to encrypt the message!",
            KdtErr::DecapsulationError => "Failed to decapsulate the shared secret!",
            KdtErr::AuthenticationError => "Failed to authenticate the message! Wrong key or tampered data.",
            KdtErr::KeyGenerationError => "Failed to generate a new keyset!",
            KdtErr::SigningKeyUnavailable => "The signing key of this keyset is not usable in this session!",
            KdtErr::KeyAlreadyExists => "This key already exists in the database!",
            KdtErr::BadKeyId => "The key id you passed is invalid!",
        };
        proof {
            reveal_strlit("Too many arguments were passed! You can only use one argument at a time.");
            reveal_strlit("The text is not valid base64 data!");
            reveal_strlit("The envelope is malformed!");
            reveal_strlit("Failed to encapsulate against the public key!");
            reveal_strlit("Failed to encrypt the message!");
            reveal_strlit("Failed to decapsulate the shared secret!");
            reveal_strlit("Failed to authenticate the message! Wrong key or tampered data.");
            reveal_strlit("Failed to generate a new keyset!");
            reveal_strlit("The signing key of this keyset is not usable in this session!");
            reveal_strlit("This key already exists in the database!");
            reveal_strlit("The key id you passed is invalid!");
        }
        s
    }
}

} // verus!
