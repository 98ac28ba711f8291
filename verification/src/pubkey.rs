//! The public half of a keyset: encryption key, signing key, owner, and the
//! content-hash id derived from the record's canonical envelope text.

use vstd::prelude::*;

use crate::codec::{b64_parse, b64_text, lemma_b64_text_chars, Base64};
use crate::envelope::{field_wf, unwrap, unwrap_parse, wrap, wrap_text, Tag};
use crate::errors::KdtErr;
use crate::hashing::{sha256_hex, sha256_hex_upper};
use crate::text::{bytes_to_string_lossy, utf8_lossy};
use vstd::string::StrSliceExecFns;
use vstd::utf8::encode_utf8;

verus! {

/// The mathematical content of a public key record.
pub struct PubKeyPairView {
    pub crypto_key: Seq<u8>,
    pub signage_key: Seq<u8>,
    pub owner: Seq<char>,
    pub id: Seq<char>,
}

/// A public key pair: the Kyber encryption key and the Dilithium signing key
/// of one owner, with a derived identity.
#[derive(Clone, Debug)]
pub struct PubKeyPair {
    /// Kyber public key bytes.
    pub crypto_key: Vec<u8>,
    /// Dilithium public key bytes.
    pub signage_key: Vec<u8>,
    /// Key owner's name.
    pub owner: String,
    /// Uppercase-hex SHA-256 of the record's canonical text, assigned by
    /// [`PubKeyPair::init`]; empty until then.
    pub id: String,
}

impl View for PubKeyPair {
    type V = PubKeyPairView;

    open spec fn view(&self) -> PubKeyPairView {
        PubKeyPairView {
            crypto_key: self.crypto_key@,
            signage_key: self.signage_key@,
            owner: self.owner@,
            id: self.id@,
        }
    }
}

/// The canonical envelope text of a public key record: the two keys and the
/// owner name base64-encoded and armored under the `PUBKEY BLOCK` tag.  The
/// id takes no part in it.
pub open spec fn pubkey_text(ck: Seq<u8>, sk: Seq<u8>, owner: Seq<char>) -> Seq<char> {
    wrap_text(Tag::PubkeyBlock, seq![b64_text(ck), b64_text(sk), b64_text(encode_utf8(owner))])
}

/// The id a public key record derives from its content: the uppercase-hex
/// SHA-256 of its canonical text rendered with the id absent.
pub open spec fn pubkey_id(ck: Seq<u8>, sk: Seq<u8>, owner: Seq<char>) -> Seq<char> {
    sha256_hex(pubkey_text(ck, sk, owner))
}

/// The parse of a public key envelope: the three fields recovered, base64
/// decoded, the owner read back as text, and the id left empty.
pub open spec fn pubkey_parse(s: Seq<char>) -> Option<PubKeyPairView> {
    match unwrap_parse(Tag::PubkeyBlock, s) {
        None => None,
        Some(fs) => {
            if b64_parse(fs[0]) is Some && b64_parse(fs[1]) is Some && b64_parse(fs[2]) is Some {
                Some(
                    PubKeyPairView {
                        crypto_key: b64_parse(fs[0]).unwrap(),
                        signage_key: b64_parse(fs[1]).unwrap(),
                        owner: utf8_lossy(b64_parse(fs[2]).unwrap()),
                        id: Seq::empty(),
                    },
                )
            } else {
                None
            }
        },
    }
}

impl PubKeyPair {
    /// True once the record carries the id derived from its content.
    pub open spec fn initialized(self) -> bool {
        self@.id == pubkey_id(self@.crypto_key, self@.signage_key, self@.owner)
    }

    /// Builds a record from raw key material; the id stays empty until
    /// [`PubKeyPair::init`] derives it.
    pub fn new(crypto_key: Vec<u8>, signage_key: Vec<u8>, owner: String) -> (r: Self)
        ensures
            r@.crypto_key == crypto_key@,
            r@.signage_key == signage_key@,
            r@.owner == owner@,
            r@.id == Seq::<char>::empty(),
    {
        PubKeyPair { crypto_key, signage_key, owner, id: String::new() }
    }

    /// Derives the content-hash id and stores it; the other fields do not
    /// move.  Every freshly built record must pass through here.
    pub fn init(self) -> (r: Self)
        ensures
            r@.crypto_key == self@.crypto_key,
            r@.signage_key == self@.signage_key,
            r@.owner == self@.owner,
            r.initialized(),
    {
        let text = self.to_text();
        let id = sha256_hex_upper(text.as_str());
        PubKeyPair {
            crypto_key: self.crypto_key,
            signage_key: self.signage_key,
            owner: self.owner,
            id,
        }
    }


    /// A field-for-field copy of the record.
    pub fn duplicate(&self) -> (r: Self)
        ensures
            r@ == self@,
    {
        PubKeyPair {
            crypto_key: crate::codec::clone_bytes(&self.crypto_key),
            signage_key: crate::codec::clone_bytes(&self.signage_key),
            owner: self.owner.clone(),
            id: self.id.clone(),
        }
    }

    /// Renders the record's canonical envelope text, id not included.
    pub fn to_text(&self) -> (r: String)
        ensures
            r@ == pubkey_text(self@.crypto_key, self@.signage_key, self@.owner),
    {
        let f0 = Base64::encode_bytes(self.crypto_key.as_slice());
        let f1 = Base64::encode_bytes(self.signage_key.as_slice());
        let owner_bytes = self.owner.as_str().as_bytes_vec();
        let f2 = Base64::encode_bytes(owner_bytes.as_slice());
        let mut fields: Vec<String> = Vec::new();
        fields.push(f0);
        fields.push(f1);
        fields.push(f2);
        let r = wrap(Tag::PubkeyBlock, &fields);
        proof {
            assert(fields@.map_values(|f: String| f@) =~= seq![
                b64_text(self@.crypto_key),
                b64_text(self@.signage_key),
                b64_text(encode_utf8(self@.owner)),
            ]);
        }
        r
    }

    /// Reads a record back from its envelope text.  The id stays empty: a
    /// caller that needs it initialized calls [`PubKeyPair::init`].  Fails
    /// with [`KdtErr::EnvelopeFormat`] when the armor does not parse and
    /// with [`KdtErr::MalformedEncoding`] when a field is not valid base64.
    pub fn from_str(pubkey_str: String) -> (r: Result<Self, KdtErr>)
        ensures
            match r {
                Ok(k) => pubkey_parse(pubkey_str@) == Some(k@),
                Err(e) => {
                    &&& pubkey_parse(pubkey_str@) is None
                    &&& e == (if unwrap_parse(Tag::PubkeyBlock, pubkey_str@) is None {
                        KdtErr::EnvelopeFormat
                    } else {
                        KdtErr::MalformedEncoding
                    })
                },
            },
    {
        let fields = match unwrap(Tag::PubkeyBlock, pubkey_str.as_str()) {
            Ok(fs) => fs,
            Err(_) => {
                return Err(KdtErr::EnvelopeFormat);
            },
        };
        proof {
            assert(fields@.map_values(|f: String| f@).len() == 3);
            assert(fields@.map_values(|f: String| f@)[0] == fields@[0]@);
            assert(fields@.map_values(|f: String| f@)[1] == fields@[1]@);
            assert(fields@.map_values(|f: String| f@)[2] == fields@[2]@);
        }
        let crypto_key = match Base64::decode_string(fields[0].as_str()) {
            Ok(v) => v,
            Err(_) => {
                return Err(KdtErr::MalformedEncoding);
            },
        };
        let signage_key = match Base64::decode_string(fields[1].as_str()) {
            Ok(v) => v,
            Err(_) => {
                return Err(KdtErr::MalformedEncoding);
            },
        };
        let owner_bytes = match Base64::decode_string(fields[2].as_str()) {
            Ok(v) => v,
            Err(_) => {
                return Err(KdtErr::MalformedEncoding);
            },
        };
        let owner = bytes_to_string_lossy(owner_bytes.as_slice());
        Ok(PubKeyPair { crypto_key, signage_key, owner, id: String::new() })
    }
}

/// The canonical text of a record always parses back to an envelope of three
/// base64 fields; rendering and parsing are inverse on the key bytes.
pub proof fn lemma_pubkey_text_parses(ck: Seq<u8>, sk: Seq<u8>, owner: Seq<char>)
    ensures
        unwrap_parse(Tag::PubkeyBlock, pubkey_text(ck, sk, owner)) == Some(
            seq![b64_text(ck), b64_text(sk), b64_text(encode_utf8(owner))],
        ),
        pubkey_parse(pubkey_text(ck, sk, owner)) matches Some(v) && v.crypto_key == ck
            && v.signage_key == sk && v.owner == utf8_lossy(encode_utf8(owner)),
{
    let fs = seq![b64_text(ck), b64_text(sk), b64_text(encode_utf8(owner))];
    assert forall|k: int| 0 <= k < fs.len() implies field_wf(#[trigger] fs[k]) by {
        lemma_b64_text_chars(ck);
        lemma_b64_text_chars(sk);
        lemma_b64_text_chars(encode_utf8(owner));
    }
    crate::envelope::lemma_wrap_unwrap_round_trip(Tag::PubkeyBlock, fs);
    crate::codec::lemma_base64_round_trip(ck);
    crate::codec::lemma_base64_round_trip(sk);
    crate::codec::lemma_base64_round_trip(encode_utf8(owner));
}

} // verus!
