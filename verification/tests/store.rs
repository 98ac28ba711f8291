//! Tests of the key store operations and the argument rules.

use kdt::arguments::Args;
use kdt::database::{OwnedKeyDb, PubKeyDb};
use kdt::errors::KdtErr;
use kdt::handler::CoreKdtHandler;
use kdt::pubkey::PubKeyPair;

fn empty_handler() -> CoreKdtHandler {
    CoreKdtHandler::from_databases(PubKeyDb { keys: Vec::new() }, OwnedKeyDb { keys: Vec::new() })
}

fn no_args() -> Args {
    Args {
        gen_key: false,
        import: false,
        decrypt: None,
        encrypt: None,
        list_keys: false,
        list_key_pairs: false,
        export_pubkey: None,
        del_pubkey: None,
        del_keyset: None,
        sign: None,
        verify: None,
    }
}

#[test]
fn duplicate_import_is_rejected() {
    let mut handler = empty_handler();
    let record = PubKeyPair::new(vec![1, 2, 3], vec![4, 5, 6], "Dup".into()).init();
    let text = record.to_text();
    let first = handler.register_pubkey(text.clone()).unwrap();
    assert_eq!(first, record.id);
    assert_eq!(handler.register_pubkey(text).unwrap_err(), KdtErr::KeyAlreadyExists);
    assert_eq!(handler.pubkey_db.keys.len(), 1);
}

#[test]
fn lookup_of_removed_id_fails() {
    let mut handler = empty_handler();
    let record = PubKeyPair::new(vec![1], vec![2], "Gone".into()).init();
    let id = handler.register_pubkey(record.to_text()).unwrap();
    assert!(handler.pubkey_db.get_by_id(id.clone()).is_ok());
    handler.del_pubkey(id.clone());
    assert_eq!(handler.pubkey_db.get_by_id(id.clone()).unwrap_err(), KdtErr::BadKeyId);
    // Removing an id that is no longer present is a silent no-op.
    handler.del_pubkey(id);
    assert!(handler.pubkey_db.is_empty());
}

#[test]
fn generated_keyset_is_found_with_its_owner() {
    let mut handler = empty_handler();
    let id = handler.gen_key("Owner Name".into()).unwrap();
    let keyset = handler.ownedkey_db.get_by_id(id.clone()).unwrap();
    assert_eq!(keyset.privkey_pair.owner, "Owner Name");
    assert_eq!(keyset.pubkey_pair.owner, "Owner Name");
    assert_eq!(keyset.privkey_pair.id, id);
    assert_eq!(id.len(), 64);

    handler.del_ownedkey(id.clone());
    assert_eq!(handler.ownedkey_db.get_by_id(id).unwrap_err(), KdtErr::BadKeyId);
    assert!(handler.ownedkey_db.is_empty());
}

#[test]
fn distinct_records_get_distinct_ids() {
    let a = PubKeyPair::new(vec![1, 2, 3], vec![4, 5, 6], "Ann".into()).init();
    let b = PubKeyPair::new(vec![1, 2, 3], vec![4, 5, 6], "Ben".into()).init();
    let c = PubKeyPair::new(vec![3, 2, 1], vec![4, 5, 6], "Ann".into()).init();
    assert_ne!(a.id, b.id);
    assert_ne!(a.id, c.id);
    // Identical content re-derives the identical id.
    let again = PubKeyPair::new(vec![1, 2, 3], vec![4, 5, 6], "Ann".into()).init();
    assert_eq!(a.id, again.id);
}

#[test]
fn public_and_private_ids_of_one_keyset_differ() {
    let mut handler = empty_handler();
    let id = handler.gen_key("Pair".into()).unwrap();
    let keyset = handler.ownedkey_db.get_by_id(id).unwrap();
    assert_ne!(keyset.pubkey_pair.id, keyset.privkey_pair.id);
}

#[test]
fn lookup_on_unknown_and_ambiguous_ids_fails() {
    let mut handler = empty_handler();
    assert_eq!(
        handler.pubkey_db.get_by_id("nope".into()).unwrap_err(),
        KdtErr::BadKeyId
    );
    // Two records forced to share an id: defensively a lookup failure too.
    let record = PubKeyPair::new(vec![5], vec![6], "Twin".into()).init();
    handler.pubkey_db.keys.push(record.duplicate());
    handler.pubkey_db.keys.push(record.duplicate());
    assert_eq!(
        handler.pubkey_db.get_by_id(record.id).unwrap_err(),
        KdtErr::BadKeyId
    );
}

#[test]
fn encrypt_with_unknown_id_fails() {
    let handler = empty_handler();
    assert_eq!(
        handler.encrypt("missing".into(), "text".into()).unwrap_err(),
        KdtErr::BadKeyId
    );
    assert_eq!(
        handler.decrypt("missing".into(), "text".into()).unwrap_err(),
        KdtErr::BadKeyId
    );
    assert_eq!(
        handler.verify("missing".into(), "text".into()).unwrap_err(),
        KdtErr::BadKeyId
    );
}

#[test]
fn decrypt_rejects_malformed_envelopes() {
    let mut handler = empty_handler();
    let id = handler.gen_key("Reader".into()).unwrap();
    assert_eq!(
        handler.decrypt(id, "not an envelope".into()).unwrap_err(),
        KdtErr::EnvelopeFormat
    );
}

#[test]
fn at_most_one_action_is_accepted() {
    let none = no_args();
    assert_eq!(none.get_num_called(), 0);
    assert!(none.fail_if_invalid().is_ok());

    let mut one = no_args();
    one.gen_key = true;
    assert_eq!(one.get_num_called(), 1);
    assert!(one.fail_if_invalid().is_ok());

    let mut two = no_args();
    two.import = true;
    two.encrypt = Some("some id".into());
    assert_eq!(two.get_num_called(), 2);
    assert_eq!(two.fail_if_invalid().unwrap_err(), KdtErr::TooManyArgs);
}

#[test]
fn error_messages_are_human_readable() {
    assert_eq!(
        KdtErr::KeyAlreadyExists.message(),
        "This key already exists in the database!"
    );
    assert_eq!(KdtErr::BadKeyId.message(), "The key id you passed is invalid!");
}
