//! The encrypted-message envelope in its two forms: raw bytes
//! ([`KdtEncryptedMessage`]) and the base64 field strings of the armored
//! text ([`Message`]).

use vstd::prelude::*;

use crate::codec::{b64_parse, b64_text, lemma_b64_text_chars, Base64};
use crate::envelope::{field_wf, unwrap, unwrap_parse, wrap, wrap_text, Tag};
use crate::errors::KdtErr;
use vstd::string::StrSliceExecFns;

verus! {

/// The mathematical content of an encrypted message.
pub struct KdtEncryptedMessageView {
    pub encrypted_secret: Seq<u8>,
    pub encrypted_message: Seq<u8>,
    pub nonce: Seq<u8>,
}

/// An encrypted message as raw bytes: the encapsulated shared secret, the
/// sealed payload, and the nonce it was sealed under.
#[derive(Clone, Debug)]
pub struct KdtEncryptedMessage {
    /// The shared secret established by the KEM, encapsulated so that only
    /// the holder of the private key recovers it.
    pub encrypted_secret: Vec<u8>,
    /// The sealed payload bytes, authentication tag included.
    pub encrypted_message: Vec<u8>,
    /// The AEAD nonce; it needs no secrecy and travels with the ciphertext.
    pub nonce: Vec<u8>,
}

impl View for KdtEncryptedMessage {
    type V = KdtEncryptedMessageView;

    open spec fn view(&self) -> KdtEncryptedMessageView {
        KdtEncryptedMessageView {
            encrypted_secret: self.encrypted_secret@,
            encrypted_message: self.encrypted_message@,
            nonce: self.nonce@,
        }
    }
}

/// The armored text of an encrypted message: the three byte fields base64
/// encoded under the `MESSAGE` tag.
pub open spec fn message_text(es: Seq<u8>, cm: Seq<u8>, nonce: Seq<u8>) -> Seq<char> {
    wrap_text(Tag::Message, seq![b64_text(es), b64_text(cm), b64_text(nonce)])
}

/// The parse of an encrypted-message envelope back into its byte fields.
pub open spec fn message_parse(s: Seq<char>) -> Option<KdtEncryptedMessageView> {
    match unwrap_parse(Tag::Message, s) {
        None => None,
        Some(fs) => {
            if b64_parse(fs[0]) is Some && b64_parse(fs[1]) is Some && b64_parse(fs[2]) is Some {
                Some(
                    KdtEncryptedMessageView {
                        encrypted_secret: b64_parse(fs[0]).unwrap(),
                        encrypted_message: b64_parse(fs[1]).unwrap(),
                        nonce: b64_parse(fs[2]).unwrap(),
                    },
                )
            } else {
                None
            }
        },
    }
}

impl KdtEncryptedMessage {
    /// Assembles a message from the encapsulated secret, the sealed payload
    /// and the nonce.
    pub fn new(encrypted_secret: Vec<u8>, encrypted_message: Vec<u8>, nonce: Vec<u8>) -> (r: Self)
        ensures
            r@.encrypted_secret == encrypted_secret@,
            r@.encrypted_message == encrypted_message@,
            r@.nonce == nonce@,
    {
        KdtEncryptedMessage { encrypted_secret, encrypted_message, nonce }
    }

    /// Restores a message from its armored text.  Fails with
    /// [`KdtErr::EnvelopeFormat`] when the armor does not parse and with
    /// [`KdtErr::MalformedEncoding`] when a field is not valid base64.
    pub fn from_str(message: String) -> (r: Result<Self, KdtErr>)
        ensures
            match r {
                Ok(m) => message_parse(message@) == Some(m@),
                Err(e) => {
                    &&& message_parse(message@) is None
                    &&& e == (if unwrap_parse(Tag::Message, message@) is None {
                        KdtErr::EnvelopeFormat
                    } else {
                        KdtErr::MalformedEncoding
                    })
                },
            },
    {
        let fields = match unwrap(Tag::Message, message.as_str()) {
            Ok(fs) => fs,
            Err(_) => {
                return Err(KdtErr::EnvelopeFormat);
            },
        };
        proof {
            assert(fields@.map_values(|f: String| f@).len() == 3);
            assert(fields@.map_values(|f: String| f@)[0] == fields@[0]@);
            assert(fields@.map_values(|f: String| f@)[1] == fields@[1]@);
            assert(fields@.map_values(|f: String| f@)[2] == fields@[2]@);
        }
        let encrypted_secret = match Base64::decode_string(fields[0].as_str()) {
            Ok(v) => v,
            Err(_) => {
                return Err(KdtErr::MalformedEncoding);
            },
        };
        let encrypted_message = match Base64::decode_string(fields[1].as_str()) {
            Ok(v) => v,
            Err(_) => {
                return Err(KdtErr::MalformedEncoding);
            },
        };
        let nonce = match Base64::decode_string(fields[2].as_str()) {
            Ok(v) => v,
            Err(_) => {
                return Err(KdtErr::MalformedEncoding);
            },
        };
        Ok(KdtEncryptedMessage { encrypted_secret, encrypted_message, nonce })
    }

    /// Renders the message as armored text for sharing.
    pub fn to_text(&self) -> (r: String)
        ensures
            r@ == message_text(self@.encrypted_secret, self@.encrypted_message, self@.nonce),
    {
        let f0 = Base64::encode_bytes(self.encrypted_secret.as_slice());
        let f1 = Base64::encode_bytes(self.encrypted_message.as_slice());
        let f2 = Base64::encode_bytes(self.nonce.as_slice());
        let mut fields: Vec<String> = Vec::new();
        fields.push(f0);
        fields.push(f1);
        fields.push(f2);
        let r = wrap(Tag::Message, &fields);
        proof {
            assert(fields@.map_values(|f: String| f@) =~= seq![
                b64_text(self@.encrypted_secret),
                b64_text(self@.encrypted_message),
                b64_text(self@.nonce),
            ]);
        }
        r
    }
}

/// The armored text of a message always parses back to exactly the bytes it
/// was rendered from.
pub proof fn lemma_message_text_round_trip(es: Seq<u8>, cm: Seq<u8>, nonce: Seq<u8>)
    ensures
        message_parse(message_text(es, cm, nonce)) matches Some(v) && v.encrypted_secret == es
            && v.encrypted_message == cm && v.nonce == nonce,
{
    let fs = seq![b64_text(es), b64_text(cm), b64_text(nonce)];
    assert forall|k: int| 0 <= k < fs.len() implies field_wf(#[trigger] fs[k]) by {
        lemma_b64_text_chars(es);
        lemma_b64_text_chars(cm);
        lemma_b64_text_chars(nonce);
    }
    crate::envelope::lemma_wrap_unwrap_round_trip(Tag::Message, fs);
    crate::codec::lemma_base64_round_trip(es);
    crate::codec::lemma_base64_round_trip(cm);
    crate::codec::lemma_base64_round_trip(nonce);
}

/// An encrypted message as the base64 field strings of its armored text: the
/// string-level companion of [`KdtEncryptedMessage`].
#[derive(Clone, Debug)]
pub struct Message {
    /// The encapsulated shared secret, base64 encoded.
    pub encrypted_secret: String,
    /// The sealed payload, base64 encoded.
    pub encrypted_message: String,
    /// The AEAD nonce, base64 encoded.
    pub nonce: String,
}

impl Message {
    /// Assembles a message from its three already-encoded fields.
    pub fn new(encrypted_secret: String, encrypted_message: String, nonce: String) -> (r: Self)
        ensures
            r.encrypted_secret@ == encrypted_secret@,
            r.encrypted_message@ == encrypted_message@,
            r.nonce@ == nonce@,
    {
        Message { encrypted_secret, encrypted_message, nonce }
    }

    /// Restores the three encoded fields from armored text without decoding
    /// them.  Fails with [`KdtErr::EnvelopeFormat`] when the armor does not
    /// parse.
    pub fn from_str(message: String) -> (r: Result<Self, KdtErr>)
        ensures
            match r {
                Ok(m) => unwrap_parse(Tag::Message, message@) == Some(
                    seq![m.encrypted_secret@, m.encrypted_message@, m.nonce@],
                ),
                Err(e) => unwrap_parse(Tag::Message, message@) is None && e
                    == KdtErr::EnvelopeFormat,
            },
    {
        let mut fields = match unwrap(Tag::Message, message.as_str()) {
            Ok(fs) => fs,
            Err(_) => {
                return Err(KdtErr::EnvelopeFormat);
            },
        };
        proof {
            assert(fields@.map_values(|f: String| f@).len() == 3);
            assert(fields@.map_values(|f: String| f@)[0] == fields@[0]@);
            assert(fields@.map_values(|f: String| f@)[1] == fields@[1]@);
            assert(fields@.map_values(|f: String| f@)[2] == fields@[2]@);
        }
        let nonce = fields.pop().unwrap();
        let encrypted_message = fields.pop().unwrap();
        let encrypted_secret = fields.pop().unwrap();
        let r = Message { encrypted_secret, encrypted_message, nonce };
        proof {
            assert(seq![r.encrypted_secret@, r.encrypted_message@, r.nonce@] =~= unwrap_parse(
                Tag::Message,
                message@,
            ).unwrap());
        }
        Ok(r)
    }

    /// Renders the message as armored text for sharing.
    pub fn to_text(&self) -> (r: String)
        ensures
            r@ == wrap_text(
                Tag::Message,
                seq![self.encrypted_secret@, self.encrypted_message@, self.nonce@],
            ),
    {
        let mut fields: Vec<String> = Vec::new();
        fields.push(self.encrypted_secret.clone());
        fields.push(self.encrypted_message.clone());
        fields.push(self.nonce.clone());
        let r = wrap(Tag::Message, &fields);
        proof {
            assert(fields@.map_values(|f: String| f@) =~= seq![
                self.encrypted_secret@,
                self.encrypted_message@,
                self.nonce@,
            ]);
        }
        r
    }
}

} // verus!
