//! The highest-level object: it owns the two key databases and carries out
//! encryption, decryption, signing, verification, key generation, import
//! and removal against them.  The databases come in as explicit values —
//! the surrounding application loads and persists them — so the handler
//! itself never touches a file.

use vstd::prelude::*;

use crate::crypto::{decryption_of, envelope_for, KdtCryptoHandler};
use crate::database::{
    matching_owned, matching_pub, retained_owned, retained_pub, OwnedKeyDb, PubKeyDb,
};
use crate::encrypted_message::{message_parse, message_text, KdtEncryptedMessage};
use crate::errors::KdtErr;
use crate::kem::{KYBER_CIPHERTEXT_LEN, KYBER_PUBLICKEY_LEN, KYBER_SECRETKEY_LEN};
use crate::key::OwnedKeySet;
use crate::pubkey::{pubkey_id, pubkey_parse, PubKeyPair};
use crate::sealing::AEAD_NONCE_LEN;
use crate::signed_message::{signed_parse, signed_structure, signed_text, KdtSignedMessage};
use crate::signing::{
    dilithium_public, dilithium_verify_ok, KdtSignageHandler, DILITHIUM_PUBLICKEY_LEN,
};
use crate::text::utf8_lossy;
use vstd::string::StrSliceExecFns;
use vstd::utf8::encode_utf8;

verus! {

/// Highest-level handler: key generation, import, removal, encryption,
/// decryption, signing and verification over the in-memory databases.
pub struct CoreKdtHandler {
    /// Public key database, loaded into memory by the caller.
    pub pubkey_db: PubKeyDb,
    /// Owned key database, loaded into memory by the caller.
    pub ownedkey_db: OwnedKeyDb,
}

impl CoreKdtHandler {
    /// Builds a handler around databases the caller has already loaded.
    pub fn from_databases(pubkey_db: PubKeyDb, ownedkey_db: OwnedKeyDb) -> (r: Self)
        ensures
            r.pubkey_db.keys@ == pubkey_db.keys@,
            r.ownedkey_db.keys@ == ownedkey_db.keys@,
    {
        CoreKdtHandler { pubkey_db, ownedkey_db }
    }

    /// Generates a new owned keyset under the given owner name, appends it
    /// to the owned key database, and returns the private record's id.
    pub fn gen_key(&mut self, name: String) -> (r: Result<String, KdtErr>)
        ensures
            final(self).pubkey_db.keys@ == old(self).pubkey_db.keys@,
            match r {
                Ok(id) => {
                    let ks = final(self).ownedkey_db.keys@.last();
                    &&& final(self).ownedkey_db.keys@ == old(self).ownedkey_db.keys@.push(ks)
                    &&& ks.wf()
                    &&& ks.signer is Some
                    &&& ks.pubkey_pair@.owner == name@
                    &&& ks.privkey_pair@.owner == name@
                    &&& ks.pubkey_pair@.crypto_key.len() == KYBER_PUBLICKEY_LEN
                    &&& ks.privkey_pair@.crypto_key.len() == KYBER_SECRETKEY_LEN
                    &&& id@ == ks.privkey_pair@.id
                },
                Err(e) => {
                    &&& final(self).ownedkey_db.keys@ == old(self).ownedkey_db.keys@
                    &&& e == KdtErr::KeyGenerationError
                },
            },
    {
        let ks = match OwnedKeySet::generate(name) {
            Ok(k) => k,
            Err(_) => {
                return Err(KdtErr::KeyGenerationError);
            },
        };
        let id = ks.privkey_pair.id.clone();
        self.ownedkey_db.keys.push(ks);
        Ok(id)
    }

    /// Removes every public key with the given id from the database in
    /// memory; removing an absent id changes nothing.
    pub fn del_pubkey(&mut self, keyid: String)
        ensures
            final(self).pubkey_db.keys@ == retained_pub(old(self).pubkey_db.keys@, keyid@),
            final(self).ownedkey_db.keys@ == old(self).ownedkey_db.keys@,
    {
        let ghost orig = self.pubkey_db.keys@;
        let n0 = self.pubkey_db.keys.len();
        let mut i: usize = 0;
        proof {
            assert(orig.len() == n0);
            assert(retained_pub(orig.take(0), keyid@) =~= Seq::<PubKeyPair>::empty());
            assert(self.pubkey_db.keys@ =~= retained_pub(orig.take(0), keyid@) + orig.skip(0));
        }
        let mut j_exec: usize = 0;
        while i < self.pubkey_db.keys.len()
            invariant
                i <= self.pubkey_db.keys@.len(),
                j_exec <= orig.len(),
                orig.len() <= usize::MAX,
                i as int == retained_pub(orig.take(j_exec as int), keyid@).len(),
                self.pubkey_db.keys@ == retained_pub(orig.take(j_exec as int), keyid@) + orig.skip(
                    j_exec as int,
                ),
                self.pubkey_db.keys@.len() == i + orig.len() - j_exec,
                self.ownedkey_db.keys@ == old(self).ownedkey_db.keys@,
            decreases orig.len() - j_exec,
        {
            proof {
                assert(orig.take(j_exec + 1) =~= orig.take(j_exec as int).push(
                    orig[j_exec as int],
                ));
                lemma_retained_pub_snoc(orig.take(j_exec as int), orig[j_exec as int], keyid@);
                assert(self.pubkey_db.keys@[i as int] == orig[j_exec as int]);
            }
            if self.pubkey_db.keys[i].id == keyid {
                self.pubkey_db.keys.remove(i);
                proof {
                    assert(self.pubkey_db.keys@ =~= retained_pub(orig.take(j_exec + 1), keyid@)
                        + orig.skip(j_exec + 1));
                }
            } else {
                i = i + 1;
                proof {
                    assert(self.pubkey_db.keys@ =~= retained_pub(orig.take(j_exec + 1), keyid@)
                        + orig.skip(j_exec + 1));
                    assert(retained_pub(orig.take(j_exec + 1), keyid@) =~= retained_pub(
                        orig.take(j_exec as int),
                        keyid@,
                    ).push(orig[j_exec as int]));
                }
            }
            j_exec = j_exec + 1;
        }
        proof {
            assert(orig.take(orig.len() as int) =~= orig);
            assert(orig.skip(orig.len() as int) =~= Seq::<PubKeyPair>::empty());
            assert(self.pubkey_db.keys@ =~= retained_pub(orig, keyid@));
        }
    }

    /// Removes every owned keyset whose private record has the given id;
    /// removing an absent id changes nothing.
    pub fn del_ownedkey(&mut self, keyid: String)
        ensures
            final(self).ownedkey_db.keys@ == retained_owned(old(self).ownedkey_db.keys@, keyid@),
            final(self).pubkey_db.keys@ == old(self).pubkey_db.keys@,
    {
        let ghost orig = self.ownedkey_db.keys@;
        let n0 = self.ownedkey_db.keys.len();
        let mut i: usize = 0;
        proof {
            assert(orig.len() == n0);
            assert(retained_owned(orig.take(0), keyid@) =~= Seq::<OwnedKeySet>::empty());
            assert(self.ownedkey_db.keys@ =~= retained_owned(orig.take(0), keyid@) + orig.skip(0));
        }
        let mut j_exec: usize = 0;
        while i < self.ownedkey_db.keys.len()
            invariant
                i <= self.ownedkey_db.keys@.len(),
                j_exec <= orig.len(),
                orig.len() <= usize::MAX,
                i as int == retained_owned(orig.take(j_exec as int), keyid@).len(),
                self.ownedkey_db.keys@ == retained_owned(orig.take(j_exec as int), keyid@)
                    + orig.skip(j_exec as int),
                self.ownedkey_db.keys@.len() == i + orig.len() - j_exec,
                self.pubkey_db.keys@ == old(self).pubkey_db.keys@,
            decreases orig.len() - j_exec,
        {
            proof {
                assert(orig.take(j_exec + 1) =~= orig.take(j_exec as int).push(
                    orig[j_exec as int],
                ));
                lemma_retained_owned_snoc(orig.take(j_exec as int), orig[j_exec as int], keyid@);
                assert(self.ownedkey_db.keys@[i as int] == orig[j_exec as int]);
            }
            if self.ownedkey_db.keys[i].privkey_pair.id == keyid {
                self.ownedkey_db.keys.remove(i);
                proof {
                    assert(self.ownedkey_db.keys@ =~= retained_owned(orig.take(j_exec + 1), keyid@)
                        + orig.skip(j_exec + 1));
                }
            } else {
                i = i + 1;
                proof {
                    assert(self.ownedkey_db.keys@ =~= retained_owned(orig.take(j_exec + 1), keyid@)
                        + orig.skip(j_exec + 1));
                    assert(retained_owned(orig.take(j_exec + 1), keyid@) =~= retained_owned(
                        orig.take(j_exec as int),
                        keyid@,
                    ).push(orig[j_exec as int]));
                }
            }
            j_exec = j_exec + 1;
        }
        proof {
            assert(orig.take(orig.len() as int) =~= orig);
            assert(orig.skip(orig.len() as int) =~= Seq::<OwnedKeySet>::empty());
            assert(self.ownedkey_db.keys@ =~= retained_owned(orig, keyid@));
        }
    }

    /// Imports a public key envelope into the database.  The record is
    /// re-identified by its content hash; a record already carrying that id
    /// makes the import fail with [`KdtErr::KeyAlreadyExists`], and a text
    /// that does not parse leaves the database unchanged with the parse's
    /// own error.  On success the id is returned.
    pub fn register_pubkey(&mut self, pubkey_str: String) -> (r: Result<String, KdtErr>)
        ensures
            final(self).ownedkey_db.keys@ == old(self).ownedkey_db.keys@,
            match r {
                Ok(id) => {
                    let k = final(self).pubkey_db.keys@.last();
                    &&& pubkey_parse(pubkey_str@) matches Some(v) && k@.crypto_key == v.crypto_key
                        && k@.signage_key == v.signage_key && k@.owner == v.owner
                    &&& k.initialized()
                    &&& id@ == k@.id
                    &&& matching_pub(old(self).pubkey_db.keys@, k@.id).len() == 0
                    &&& final(self).pubkey_db.keys@ == old(self).pubkey_db.keys@.push(k)
                },
                Err(e) => {
                    &&& final(self).pubkey_db.keys@ == old(self).pubkey_db.keys@
                    &&& match pubkey_parse(pubkey_str@) {
                        None => e == KdtErr::EnvelopeFormat || e == KdtErr::MalformedEncoding,
                        Some(v) => e == KdtErr::KeyAlreadyExists && matching_pub(
                            old(self).pubkey_db.keys@,
                            pubkey_id(v.crypto_key, v.signage_key, v.owner),
                        ).len() != 0,
                    }
                },
            },
    {
        let pubkey = match PubKeyPair::from_str(pubkey_str) {
            Ok(k) => k.init(),
            Err(e) => {
                return Err(e);
            },
        };
        let mut i: usize = 0;
        let mut already: bool = false;
        proof {
            assert(matching_pub(self.pubkey_db.keys@.take(0), pubkey@.id) =~= Seq::<
                PubKeyPair,
            >::empty());
        }
        while i < self.pubkey_db.keys.len()
            invariant
                i <= self.pubkey_db.keys@.len(),
                already == (matching_pub(self.pubkey_db.keys@.take(i as int), pubkey@.id).len()
                    != 0),
            decreases self.pubkey_db.keys@.len() - i,
        {
            proof {
                assert(self.pubkey_db.keys@.take(i + 1) =~= self.pubkey_db.keys@.take(
                    i as int,
                ).push(self.pubkey_db.keys@[i as int]));
                crate::database::lemma_matching_pub_snoc(
                    self.pubkey_db.keys@.take(i as int),
                    self.pubkey_db.keys@[i as int],
                    pubkey@.id,
                );
            }
            if self.pubkey_db.keys[i].id == pubkey.id {
                already = true;
            }
            i = i + 1;
        }
        proof {
            assert(self.pubkey_db.keys@.take(self.pubkey_db.keys@.len() as int)
                =~= self.pubkey_db.keys@);
        }
        if already {
            Err(KdtErr::KeyAlreadyExists)
        } else {
            let id = pubkey.id.clone();
            self.pubkey_db.keys.push(pubkey);
            Ok(id)
        }
    }

    /// Encrypts the given text against the public key of the given id and
    /// renders the result as an armored message envelope.  Fails with
    /// [`KdtErr::BadKeyId`] unless exactly one record carries the id; the
    /// encryption itself fails as the crypto engine's contract says.
    pub fn encrypt(&self, pubkey_id: String, text: String) -> (r: Result<String, KdtErr>)
        ensures
            match r {
                Ok(s) => {
                    &&& matching_pub(self.pubkey_db.keys@, pubkey_id@).len() == 1
                    &&& exists|es: Seq<u8>, cm: Seq<u8>, nn: Seq<u8>|
                        s@ == message_text(es, cm, nn) && #[trigger] envelope_for(
                            es,
                            cm,
                            nn,
                            matching_pub(self.pubkey_db.keys@, pubkey_id@)[0]@.crypto_key,
                            text@,
                        )
                },
                Err(e) => {
                    &&& (e == KdtErr::BadKeyId <==> matching_pub(
                        self.pubkey_db.keys@,
                        pubkey_id@,
                    ).len() != 1)
                    &&& (e == KdtErr::BadKeyId || e == KdtErr::EncapsulationError || e
                        == KdtErr::EncryptionError)
                    &&& (e == KdtErr::EncryptionError ==> encode_utf8(text@).len()
                        > 0x10_0000_0000)
                },
            },
    {
        let public_key = match self.pubkey_db.get_by_id(pubkey_id) {
            Ok(k) => k,
            Err(_) => {
                return Err(KdtErr::BadKeyId);
            },
        };
        let message = match KdtCryptoHandler::encrypt_text(text.as_str(), &public_key.crypto_key) {
            Ok(m) => m,
            Err(e) => {
                return Err(e);
            },
        };
        let rendered = message.to_text();
        proof {
            let mv = message@;
            assert(rendered@ == message_text(mv.encrypted_secret, mv.encrypted_message, mv.nonce)
                && envelope_for(
                mv.encrypted_secret,
                mv.encrypted_message,
                mv.nonce,
                matching_pub(self.pubkey_db.keys@, pubkey_id@)[0]@.crypto_key,
                text@,
            ));
        }
        Ok(rendered)
    }

    /// Parses an armored message envelope and decrypts it with the private
    /// key of the given id.  Fails with [`KdtErr::BadKeyId`] unless exactly
    /// one keyset carries the id, with the parse's error on malformed text,
    /// and as the crypto engine's contract says otherwise.
    pub fn decrypt(&self, privkey_id: String, message: String) -> (r: Result<String, KdtErr>)
        ensures
            r is Ok <==> {
                &&& matching_owned(self.ownedkey_db.keys@, privkey_id@).len() == 1
                &&& message_parse(message@) matches Some(m) && {
                    let sk = matching_owned(
                        self.ownedkey_db.keys@,
                        privkey_id@,
                    )[0].privkey_pair@.crypto_key;
                    &&& m.encrypted_secret.len() == KYBER_CIPHERTEXT_LEN
                    &&& sk.len() == KYBER_SECRETKEY_LEN
                    &&& m.nonce.len() == AEAD_NONCE_LEN
                    &&& decryption_of(m.encrypted_secret, m.encrypted_message, m.nonce, sk)
                        is Some
                }
            },
            match r {
                Ok(s) => {
                    &&& matching_owned(self.ownedkey_db.keys@, privkey_id@).len() == 1
                    &&& message_parse(message@) matches Some(m)
                    &&& {
                        let sk = matching_owned(
                            self.ownedkey_db.keys@,
                            privkey_id@,
                        )[0].privkey_pair@.crypto_key;
                        let pt = decryption_of(
                            m.encrypted_secret,
                            m.encrypted_message,
                            m.nonce,
                            sk,
                        );
                        &&& pt is Some
                        &&& s@ == utf8_lossy(pt.unwrap())
                        &&& forall|t: Seq<char>| pt.unwrap() == encode_utf8(t) ==> s@ == t
                    }
                },
                Err(e) => {
                    &&& (e == KdtErr::BadKeyId <==> matching_owned(
                        self.ownedkey_db.keys@,
                        privkey_id@,
                    ).len() != 1)
                    &&& (e == KdtErr::BadKeyId || e == KdtErr::EnvelopeFormat || e
                        == KdtErr::MalformedEncoding || e == KdtErr::DecapsulationError || e
                        == KdtErr::AuthenticationError)
                },
            },
    {
        let keyset = match self.ownedkey_db.get_by_id(privkey_id) {
            Ok(k) => k,
            Err(_) => {
                return Err(KdtErr::BadKeyId);
            },
        };
        let parsed = match KdtEncryptedMessage::from_str(message) {
            Ok(m) => m,
            Err(e) => {
                return Err(e);
            },
        };
        KdtCryptoHandler::decrypt_msg(&parsed, &keyset.privkey_pair.crypto_key)
    }

    /// Signs the given text with the session signing keypair of the keyset
    /// of the given id and renders the signed-message envelope.  Fails with
    /// [`KdtErr::BadKeyId`] unless exactly one keyset carries the id, and
    /// with [`KdtErr::SigningKeyUnavailable`] when the keyset was restored
    /// from bytes, since the signature library rebuilds no keypair.
    pub fn sign(&self, privkey_id: String, text: String) -> (r: Result<String, KdtErr>)
        ensures
            match r {
                Ok(s) => {
                    &&& matching_owned(self.ownedkey_db.keys@, privkey_id@).len() == 1
                    &&& matching_owned(self.ownedkey_db.keys@, privkey_id@)[0].signer matches Some(
                        kp,
                    ) && exists|sig: Seq<u8>|
                        s@ == signed_text(text@, sig) && #[trigger] dilithium_verify_ok(
                            sig,
                            encode_utf8(text@),
                            dilithium_public(kp),
                        )
                },
                Err(e) => {
                    &&& (e == KdtErr::BadKeyId <==> matching_owned(
                        self.ownedkey_db.keys@,
                        privkey_id@,
                    ).len() != 1)
                    &&& (e == KdtErr::BadKeyId || e == KdtErr::SigningKeyUnavailable)
                    &&& (e == KdtErr::SigningKeyUnavailable ==> matching_owned(
                        self.ownedkey_db.keys@,
                        privkey_id@,
                    )[0].signer is None)
                },
            },
    {
        let keyset = match self.ownedkey_db.get_by_id(privkey_id) {
            Ok(k) => k,
            Err(_) => {
                return Err(KdtErr::BadKeyId);
            },
        };
        let signed = match &keyset.signer {
            Some(kp) => KdtSignageHandler::sign_text(text.as_str(), kp),
            None => {
                return Err(KdtErr::SigningKeyUnavailable);
            },
        };
        Ok(signed.to_text())
    }

    /// Parses a signed-message envelope and verifies it against the public
    /// key of the given id: true exactly when the signature verifies over
    /// the embedded message.  Fails with [`KdtErr::BadKeyId`] unless exactly
    /// one record carries the id, and with the parse's error on text that is
    /// no signed message.
    pub fn verify(&self, pubkey_id: String, full_text: String) -> (r: Result<bool, KdtErr>)
        ensures
            match r {
                Ok(b) => {
                    &&& matching_pub(self.pubkey_db.keys@, pubkey_id@).len() == 1
                    &&& signed_parse(full_text@) matches Some(p) && b == ({
                        let pk = matching_pub(self.pubkey_db.keys@, pubkey_id@)[0]@.signage_key;
                        pk.len() == DILITHIUM_PUBLICKEY_LEN && dilithium_verify_ok(
                            p.1,
                            encode_utf8(p.0),
                            pk,
                        )
                    })
                },
                Err(e) => {
                    &&& (e == KdtErr::BadKeyId <==> matching_pub(
                        self.pubkey_db.keys@,
                        pubkey_id@,
                    ).len() != 1)
                    &&& (e == KdtErr::BadKeyId || (signed_parse(full_text@) is None && e == (
                    if signed_structure(full_text@) is None {
                        KdtErr::EnvelopeFormat
                    } else {
                        KdtErr::MalformedEncoding
                    })))
                },
            },
    {
        let verification_key = match self.pubkey_db.get_by_id(pubkey_id) {
            Ok(k) => k,
            Err(_) => {
                return Err(KdtErr::BadKeyId);
            },
        };
        let signed = match KdtSignedMessage::from_str(full_text) {
            Ok(m) => m,
            Err(e) => {
                return Err(e);
            },
        };
        Ok(KdtSignageHandler::verify(&signed, &verification_key.signage_key))
    }
}

/// One more record at the end of a removal's input appends its survivor.
proof fn lemma_retained_pub_snoc(keys: Seq<PubKeyPair>, k: PubKeyPair, id: Seq<char>)
    ensures
        retained_pub(keys.push(k), id) == retained_pub(keys, id) + (if k@.id == id {
            Seq::<PubKeyPair>::empty()
        } else {
            seq![k]
        }),
    decreases keys.len(),
{
    let p = keys.push(k);
    if keys.len() == 0 {
        assert(p.skip(1) =~= Seq::<PubKeyPair>::empty());
        assert(retained_pub(Seq::<PubKeyPair>::empty(), id) =~= Seq::<PubKeyPair>::empty());
        assert(retained_pub(p, id) =~= retained_pub(keys, id) + (if k@.id == id {
            Seq::<PubKeyPair>::empty()
        } else {
            seq![k]
        }));
    } else {
        assert(p.skip(1) =~= keys.skip(1).push(k));
        lemma_retained_pub_snoc(keys.skip(1), k, id);
        assert(retained_pub(p, id) =~= retained_pub(keys, id) + (if k@.id == id {
            Seq::<PubKeyPair>::empty()
        } else {
            seq![k]
        }));
    }
}

/// One more keyset at the end of a removal's input appends its survivor.
proof fn lemma_retained_owned_snoc(keys: Seq<OwnedKeySet>, k: OwnedKeySet, id: Seq<char>)
    ensures
        retained_owned(keys.push(k), id) == retained_owned(keys, id) + (if k.privkey_pair@.id
            == id {
            Seq::<OwnedKeySet>::empty()
        } else {
            seq![k]
        }),
    decreases keys.len(),
{
    let p = keys.push(k);
    if keys.len() == 0 {
        assert(p.skip(1) =~= Seq::<OwnedKeySet>::empty());
        assert(retained_owned(Seq::<OwnedKeySet>::empty(), id) =~= Seq::<OwnedKeySet>::empty());
        assert(retained_owned(p, id) =~= retained_owned(keys, id) + (if k.privkey_pair@.id == id {
            Seq::<OwnedKeySet>::empty()
        } else {
            seq![k]
        }));
    } else {
        assert(p.skip(1) =~= keys.skip(1).push(k));
        lemma_retained_owned_snoc(keys.skip(1), k, id);
        assert(retained_owned(p, id) =~= retained_owned(keys, id) + (if k.privkey_pair@.id == id {
            Seq::<OwnedKeySet>::empty()
        } else {
            seq![k]
        }));
    }
}

} // verus!
