//! The in-memory key databases: ordered collections of public key records
//! and owned keysets, looked up by content-hash id.  Within each collection
//! ids are meant to be unique; lookups defensively treat anything but
//! exactly one match as failure.

use vstd::prelude::*;

use crate::errors::KdtErr;
use crate::key::OwnedKeySet;
use crate::pubkey::PubKeyPair;

verus! {

/// The records of `keys` whose id is `id`, in order.
pub open spec fn matching_pub(keys: Seq<PubKeyPair>, id: Seq<char>) -> Seq<PubKeyPair>
    decreases keys.len(),
{
    if keys.len() == 0 {
        Seq::empty()
    } else {
        let rest = matching_pub(keys.skip(1), id);
        if keys[0]@.id == id {
            seq![keys[0]] + rest
        } else {
            rest
        }
    }
}

/// The records of `keys` whose id is not `id`, in order.
pub open spec fn retained_pub(keys: Seq<PubKeyPair>, id: Seq<char>) -> Seq<PubKeyPair>
    decreases keys.len(),
{
    if keys.len() == 0 {
        Seq::empty()
    } else {
        let rest = retained_pub(keys.skip(1), id);
        if keys[0]@.id == id {
            rest
        } else {
            seq![keys[0]] + rest
        }
    }
}

/// The keysets of `keys` whose private record's id is `id`, in order.
pub open spec fn matching_owned(keys: Seq<OwnedKeySet>, id: Seq<char>) -> Seq<OwnedKeySet>
    decreases keys.len(),
{
    if keys.len() == 0 {
        Seq::empty()
    } else {
        let rest = matching_owned(keys.skip(1), id);
        if keys[0].privkey_pair@.id == id {
            seq![keys[0]] + rest
        } else {
            rest
        }
    }
}

/// The keysets of `keys` whose private record's id is not `id`, in order.
pub open spec fn retained_owned(keys: Seq<OwnedKeySet>, id: Seq<char>) -> Seq<OwnedKeySet>
    decreases keys.len(),
{
    if keys.len() == 0 {
        Seq::empty()
    } else {
        let rest = retained_owned(keys.skip(1), id);
        if keys[0].privkey_pair@.id == id {
            rest
        } else {
            seq![keys[0]] + rest
        }
    }
}

/// One more record at the end adds its match, if any, at the end.
pub proof fn lemma_matching_pub_snoc(keys: Seq<PubKeyPair>, k: PubKeyPair, id: Seq<char>)
    ensures
        matching_pub(keys.push(k), id) == matching_pub(keys, id) + (if k@.id == id {
            seq![k]
        } else {
            Seq::<PubKeyPair>::empty()
        }),
    decreases keys.len(),
{
    let p = keys.push(k);
    if keys.len() == 0 {
        assert(p.skip(1) =~= Seq::<PubKeyPair>::empty());
        assert(matching_pub(Seq::<PubKeyPair>::empty(), id) =~= Seq::<PubKeyPair>::empty());
        assert(matching_pub(p, id) =~= matching_pub(keys, id) + (if k@.id == id {
            seq![k]
        } else {
            Seq::<PubKeyPair>::empty()
        }));
    } else {
        assert(p.skip(1) =~= keys.skip(1).push(k));
        lemma_matching_pub_snoc(keys.skip(1), k, id);
        assert(matching_pub(p, id) =~= matching_pub(keys, id) + (if k@.id == id {
            seq![k]
        } else {
            Seq::<PubKeyPair>::empty()
        }));
    }
}

/// One more keyset at the end adds its match, if any, at the end.
pub proof fn lemma_matching_owned_snoc(keys: Seq<OwnedKeySet>, k: OwnedKeySet, id: Seq<char>)
    ensures
        matching_owned(keys.push(k), id) == matching_owned(keys, id) + (if k.privkey_pair@.id
            == id {
            seq![k]
        } else {
            Seq::<OwnedKeySet>::empty()
        }),
    decreases keys.len(),
{
    let p = keys.push(k);
    if keys.len() == 0 {
        assert(p.skip(1) =~= Seq::<OwnedKeySet>::empty());
        assert(matching_owned(Seq::<OwnedKeySet>::empty(), id) =~= Seq::<OwnedKeySet>::empty());
        assert(matching_owned(p, id) =~= matching_owned(keys, id) + (if k.privkey_pair@.id == id {
            seq![k]
        } else {
            Seq::<OwnedKeySet>::empty()
        }));
    } else {
        assert(p.skip(1) =~= keys.skip(1).push(k));
        lemma_matching_owned_snoc(keys.skip(1), k, id);
        assert(matching_owned(p, id) =~= matching_owned(keys, id) + (if k.privkey_pair@.id == id {
            seq![k]
        } else {
            Seq::<OwnedKeySet>::empty()
        }));
    }
}

/// Removal removes every match: looking the removed id up afterwards finds
/// nothing, so the lookup fails with the unknown-id error.
pub proof fn lemma_removed_pub_not_found(keys: Seq<PubKeyPair>, id: Seq<char>)
    ensures
        matching_pub(retained_pub(keys, id), id) == Seq::<PubKeyPair>::empty(),
    decreases keys.len(),
{
    if keys.len() == 0 {
    } else {
        lemma_removed_pub_not_found(keys.skip(1), id);
        if keys[0]@.id == id {
        } else {
            let r = retained_pub(keys, id);
            assert(r =~= seq![keys[0]] + retained_pub(keys.skip(1), id));
            assert(r.skip(1) =~= retained_pub(keys.skip(1), id));
            assert(matching_pub(r, id) =~= Seq::<PubKeyPair>::empty());
        }
    }
}

/// Removal removes every match among the owned keysets too.
pub proof fn lemma_removed_owned_not_found(keys: Seq<OwnedKeySet>, id: Seq<char>)
    ensures
        matching_owned(retained_owned(keys, id), id) == Seq::<OwnedKeySet>::empty(),
    decreases keys.len(),
{
    if keys.len() == 0 {
    } else {
        lemma_removed_owned_not_found(keys.skip(1), id);
        if keys[0].privkey_pair@.id == id {
        } else {
            let r = retained_owned(keys, id);
            assert(r =~= seq![keys[0]] + retained_owned(keys.skip(1), id));
            assert(r.skip(1) =~= retained_owned(keys.skip(1), id));
            assert(matching_owned(r, id) =~= Seq::<OwnedKeySet>::empty());
        }
    }
}

/// Inserting a record makes its id findable: if no record carried the id
/// before, the collection afterwards holds exactly one match — the record —
/// so a lookup of that id succeeds and returns it.
pub proof fn lemma_fresh_insert_found_pub(keys: Seq<PubKeyPair>, k: PubKeyPair)
    requires
        matching_pub(keys, k@.id).len() == 0,
    ensures
        matching_pub(keys.push(k), k@.id) == seq![k],
{
    lemma_matching_pub_snoc(keys, k, k@.id);
    assert(matching_pub(keys, k@.id) + seq![k] =~= seq![k]);
}

/// A freshly generated keyset is findable under the id the generation
/// returned, and the match is the full keyset, its owner included.
pub proof fn lemma_fresh_insert_found_owned(keys: Seq<OwnedKeySet>, k: OwnedKeySet)
    requires
        matching_owned(keys, k.privkey_pair@.id).len() == 0,
    ensures
        matching_owned(keys.push(k), k.privkey_pair@.id) == seq![k],
{
    lemma_matching_owned_snoc(keys, k, k.privkey_pair@.id);
    assert(matching_owned(keys, k.privkey_pair@.id) + seq![k] =~= seq![k]);
}

/// Importing a record twice cannot succeed twice: once a record is in, the
/// collection holds its id, so a second insert of any record with that id
/// is a duplicate and the import rejects it.
pub proof fn lemma_second_insert_duplicate(keys: Seq<PubKeyPair>, k: PubKeyPair)
    ensures
        matching_pub(keys.push(k), k@.id).len() >= 1,
{
    lemma_matching_pub_snoc(keys, k, k@.id);
}

/// Removing an id that no record carries is a silent no-op.
pub proof fn lemma_remove_absent_pub(keys: Seq<PubKeyPair>, id: Seq<char>)
    requires
        matching_pub(keys, id).len() == 0,
    ensures
        retained_pub(keys, id) == keys,
    decreases keys.len(),
{
    if keys.len() == 0 {
        assert(retained_pub(keys, id) =~= keys);
    } else {
        assert(keys[0]@.id != id);
        lemma_remove_absent_pub(keys.skip(1), id);
        assert(retained_pub(keys, id) =~= keys);
    }
}

/// Removing an id that no keyset carries is a silent no-op.
pub proof fn lemma_remove_absent_owned(keys: Seq<OwnedKeySet>, id: Seq<char>)
    requires
        matching_owned(keys, id).len() == 0,
    ensures
        retained_owned(keys, id) == keys,
    decreases keys.len(),
{
    if keys.len() == 0 {
        assert(retained_owned(keys, id) =~= keys);
    } else {
        assert(keys[0].privkey_pair@.id != id);
        lemma_remove_absent_owned(keys.skip(1), id);
        assert(retained_owned(keys, id) =~= keys);
    }
}

/// A database of public keys, loaded from and persisted to an external
/// store by the surrounding application.
pub struct PubKeyDb {
    /// The public key records, in insertion order.
    pub keys: Vec<PubKeyPair>,
}

impl PubKeyDb {
    /// Takes the hex id of a public key and returns a copy of the record
    /// carrying it.  Fails with [`KdtErr::BadKeyId`] unless exactly one
    /// record matches: zero and several are both lookup failures, the
    /// latter checked defensively although unique ids should rule it out.
    pub fn get_by_id(&self, id: String) -> (r: Result<PubKeyPair, KdtErr>)
        ensures
            r is Ok <==> matching_pub(self.keys@, id@).len() == 1,
            match r {
                Ok(k) => k@ == matching_pub(self.keys@, id@)[0]@,
                Err(e) => e == KdtErr::BadKeyId,
            },
    {
        let n = self.keys.len();
        let mut count: usize = 0;
        let mut found: usize = 0;
        let mut i: usize = 0;
        proof {
            assert(matching_pub(self.keys@.take(0), id@) =~= Seq::<PubKeyPair>::empty());
        }
        while i < n
            invariant
                i <= n,
                count <= i,
                n == self.keys@.len(),
                count == matching_pub(self.keys@.take(i as int), id@).len(),
                count > 0 ==> found < i && self.keys@[found as int]@.id == id@ && matching_pub(
                    self.keys@.take(i as int),
                    id@,
                )[0] == self.keys@[found as int],
            decreases n - i,
        {
            proof {
                assert(self.keys@.take(i + 1) =~= self.keys@.take(i as int).push(
                    self.keys@[i as int],
                ));
                lemma_matching_pub_snoc(self.keys@.take(i as int), self.keys@[i as int], id@);
            }
            if self.keys[i].id == id {
                if count == 0 {
                    found = i;
                }
                count = count + 1;
            }
            i = i + 1;
        }
        proof {
            assert(self.keys@.take(n as int) =~= self.keys@);
        }
        if count == 1 {
            Ok(self.keys[found].duplicate())
        } else {
            Err(KdtErr::BadKeyId)
        }
    }

    /// True when the database holds no record at all.
    pub fn is_empty(&self) -> (r: bool)
        ensures
            r == (self.keys@.len() == 0),
    {
        self.keys.is_empty()
    }
}

/// A database of owned keysets — for the owner's eyes only — loaded from
/// and persisted to an external store by the surrounding application.
pub struct OwnedKeyDb {
    /// The owned keysets, in insertion order.
    pub keys: Vec<OwnedKeySet>,
}

impl OwnedKeyDb {
    /// Takes the hex id of a private key and returns a copy of the keyset
    /// carrying it.  Fails with [`KdtErr::BadKeyId`] unless exactly one
    /// keyset matches.
    pub fn get_by_id(&self, id: String) -> (r: Result<OwnedKeySet, KdtErr>)
        ensures
            r is Ok <==> matching_owned(self.keys@, id@).len() == 1,
            match r {
                Ok(k) => {
                    let m = matching_owned(self.keys@, id@)[0];
                    &&& k.pubkey_pair@ == m.pubkey_pair@
                    &&& k.privkey_pair@ == m.privkey_pair@
                    &&& k.signer == m.signer
                },
                Err(e) => e == KdtErr::BadKeyId,
            },
    {
        let n = self.keys.len();
        let mut count: usize = 0;
        let mut found: usize = 0;
        let mut i: usize = 0;
        proof {
            assert(matching_owned(self.keys@.take(0), id@) =~= Seq::<OwnedKeySet>::empty());
        }
        while i < n
            invariant
                i <= n,
                count <= i,
                n == self.keys@.len(),
                count == matching_owned(self.keys@.take(i as int), id@).len(),
                count > 0 ==> found < i && self.keys@[found as int].privkey_pair@.id == id@
                    && matching_owned(self.keys@.take(i as int), id@)[0] == self.keys@[found as int],
            decreases n - i,
        {
            proof {
                assert(self.keys@.take(i + 1) =~= self.keys@.take(i as int).push(
                    self.keys@[i as int],
                ));
                lemma_matching_owned_snoc(self.keys@.take(i as int), self.keys@[i as int], id@);
            }
            if self.keys[i].privkey_pair.id == id {
                if count == 0 {
                    found = i;
                }
                count = count + 1;
            }
            i = i + 1;
        }
        proof {
            assert(self.keys@.take(n as int) =~= self.keys@);
        }
        if count == 1 {
            Ok(self.keys[found].duplicate())
        } else {
            Err(KdtErr::BadKeyId)
        }
    }

    /// True when the database holds no keyset at all.
    pub fn is_empty(&self) -> (r: bool)
        ensures
            r == (self.keys@.len() == 0),
    {
        self.keys.is_empty()
    }
}

} // verus!
