//! A fully owned keyset: the public and private record of one generation
//! event, which share one owner, plus the session signing keypair.

use vstd::prelude::*;

use crate::errors::KdtErr;
use crate::kem::{kyber_generate, kyber_matched, KYBER_PUBLICKEY_LEN, KYBER_SECRETKEY_LEN};
use crate::privkey::{privkey_parse, PrivKeyPair};
use crate::pubkey::{pubkey_parse, PubKeyPair};
use crate::signing::{
    dilithium_generate, dilithium_public, dilithium_public_bytes, dilithium_secret,
    dilithium_secret_bytes, DILITHIUM_PUBLICKEY_LEN, DILITHIUM_SECRETKEY_LEN,
};

verus! {

/// A matched pair of records: the shareable public half and the private half
/// that stays with the owner.  The signature library rebuilds no signing
/// keypair from exported bytes, so the keypair value itself rides along and
/// exists only in the session that generated the set.
#[derive(Clone, Debug)]
pub struct OwnedKeySet {
    /// The record other parties import to encrypt to this owner and to
    /// verify this owner's signatures.
    pub pubkey_pair: PubKeyPair,
    /// The record the owner keeps to decrypt and sign.
    pub privkey_pair: PrivKeyPair,
    /// The signing keypair of the generation event; absent when the set was
    /// restored from its byte form.
    pub signer: Option<pqc_dilithium::Keypair>,
}

impl OwnedKeySet {
    /// Both records carry their derived ids, share one owner and hold the
    /// byte forms of one generation event; the session signer, when present,
    /// signs for the public record's signing key.
    pub open spec fn wf(self) -> bool {
        &&& self.pubkey_pair.initialized()
        &&& self.privkey_pair.initialized()
        &&& self.pubkey_pair@.owner == self.privkey_pair@.owner
        &&& kyber_matched(self.pubkey_pair@.crypto_key, self.privkey_pair@.crypto_key)
        &&& match self.signer {
            Some(kp) => dilithium_public(kp) == self.pubkey_pair@.signage_key
                && dilithium_secret(kp) == self.privkey_pair@.signage_key,
            None => true,
        }
    }

    /// Generates a complete keyset on demand: one Kyber pair, one Dilithium
    /// pair, both records assembled under the given owner and identified by
    /// their content hashes.  Fails only when the random generator does.
    pub fn generate(owner_name: String) -> (r: Result<OwnedKeySet, KdtErr>)
        ensures
            match r {
                Ok(ks) => {
                    &&& ks.wf()
                    &&& ks.signer is Some
                    &&& ks.pubkey_pair@.owner == owner_name@
                    &&& ks.privkey_pair@.owner == owner_name@
                    &&& ks.pubkey_pair@.crypto_key.len() == KYBER_PUBLICKEY_LEN
                    &&& ks.privkey_pair@.crypto_key.len() == KYBER_SECRETKEY_LEN
                    &&& ks.pubkey_pair@.signage_key.len() == DILITHIUM_PUBLICKEY_LEN
                    &&& ks.privkey_pair@.signage_key.len() == DILITHIUM_SECRETKEY_LEN
                },
                Err(e) => e == KdtErr::KeyGenerationError,
            },
    {
        let (crypto_public, crypto_secret) = match kyber_generate() {
            Ok(p) => p,
            Err(_) => {
                return Err(KdtErr::KeyGenerationError);
            },
        };
        let signing_keys = dilithium_generate();
        let signage_public = dilithium_public_bytes(&signing_keys);
        let signage_secret = dilithium_secret_bytes(&signing_keys);
        let pubkey_pair = PubKeyPair::new(crypto_public, signage_public, owner_name.clone()).init();
        let privkey_pair = PrivKeyPair::new(crypto_secret, signage_secret, owner_name).init();
        Ok(OwnedKeySet { pubkey_pair, privkey_pair, signer: Some(signing_keys) })
    }

    /// Restores a keyset from the envelope texts of its two records, both
    /// re-identified by their content hashes.  The session signer stays
    /// absent: the signature library cannot rebuild it from bytes.
    pub fn from_strs(pubkey_pair_str: String, privkey_pair_str: String) -> (r: Result<
        OwnedKeySet,
        KdtErr,
    >)
        ensures
            match r {
                Ok(ks) => {
                    &&& pubkey_parse(pubkey_pair_str@) matches Some(pv)
                        && ks.pubkey_pair@.crypto_key == pv.crypto_key
                        && ks.pubkey_pair@.signage_key == pv.signage_key && ks.pubkey_pair@.owner
                        == pv.owner
                    &&& privkey_parse(privkey_pair_str@) matches Some(sv)
                        && ks.privkey_pair@.crypto_key == sv.crypto_key
                        && ks.privkey_pair@.signage_key == sv.signage_key && ks.privkey_pair@.owner
                        == sv.owner
                    &&& ks.pubkey_pair.initialized()
                    &&& ks.privkey_pair.initialized()
                    &&& ks.signer is None
                },
                Err(_) => pubkey_parse(pubkey_pair_str@) is None || privkey_parse(
                    privkey_pair_str@,
                ) is None,
            },
    {
        let pubkey_pair = match PubKeyPair::from_str(pubkey_pair_str) {
            Ok(k) => k.init(),
            Err(e) => {
                return Err(e);
            },
        };
        let privkey_pair = match PrivKeyPair::from_str(privkey_pair_str) {
            Ok(k) => k.init(),
            Err(e) => {
                return Err(e);
            },
        };
        Ok(OwnedKeySet { pubkey_pair, privkey_pair, signer: None })
    }

    /// A copy of the keyset: equal record contents and the same session
    /// signer.
    pub fn duplicate(&self) -> (r: Self)
        ensures
            r.pubkey_pair@ == self.pubkey_pair@,
            r.privkey_pair@ == self.privkey_pair@,
            r.signer == self.signer,
    {
        OwnedKeySet {
            pubkey_pair: self.pubkey_pair.duplicate(),
            privkey_pair: self.privkey_pair.duplicate(),
            signer: self.signer,
        }
    }
}

} // verus!
