//! Tests of the hybrid crypto engine, the signature engine and the
//! end-to-end exchange scenario.

use kdt::crypto::KdtCryptoHandler;
use kdt::database::{OwnedKeyDb, PubKeyDb};
use kdt::errors::KdtErr;
use kdt::handler::CoreKdtHandler;
use kdt::key::OwnedKeySet;
use kdt::pubkey::PubKeyPair;
use kdt::signed_message::KdtSignedMessage;
use kdt::signing::KdtSignageHandler;

fn empty_handler() -> CoreKdtHandler {
    CoreKdtHandler::from_databases(PubKeyDb { keys: Vec::new() }, OwnedKeyDb { keys: Vec::new() })
}

#[test]
fn kyber_with_correct_privkey() {
    let secret_message = String::from("This is a test message");

    let (pubkey, privkey) = {
        let keyset = OwnedKeySet::generate("Test Key".into()).unwrap();

        (keyset.pubkey_pair.crypto_key, keyset.privkey_pair.crypto_key)
    };
    let encrypted = KdtCryptoHandler::encrypt_text(&secret_message, &pubkey).unwrap();
    let decrypted = KdtCryptoHandler::decrypt_msg(&encrypted, &privkey).unwrap();

    assert_eq!(decrypted, secret_message);
}

#[test]
fn dilithium_with_correct_pubkey() {
    let text = String::from("This is a test message");
    let keyset = OwnedKeySet::generate("Test Key".into()).unwrap();

    let signed_text = KdtSignageHandler::sign_text(&text, keyset.signer.as_ref().unwrap())
        .to_text();
    let msg = KdtSignedMessage::from_str(signed_text).unwrap();
    let signature_validity = KdtSignageHandler::verify(&msg, &keyset.pubkey_pair.signage_key);
    assert!(signature_validity);
}

#[test]
fn hybrid_round_trip_empty_and_multibyte() {
    let keyset = OwnedKeySet::generate("Unicode".into()).unwrap();
    for text in ["", "h\u{e9}llo \u{2713} \u{4e16}\u{754c}", "plain ascii"] {
        let encrypted =
            KdtCryptoHandler::encrypt_text(text, &keyset.pubkey_pair.crypto_key).unwrap();
        let decrypted =
            KdtCryptoHandler::decrypt_msg(&encrypted, &keyset.privkey_pair.crypto_key).unwrap();
        assert_eq!(decrypted, text);
    }
}

#[test]
fn wrong_key_fails_to_decrypt() {
    let secret_message = String::from("This is a test message");
    let keyset_1 = OwnedKeySet::generate("Test Key".into()).unwrap();
    let keyset_2 = OwnedKeySet::generate("Test Key".into()).unwrap();

    let encrypted =
        KdtCryptoHandler::encrypt_text(&secret_message, &keyset_1.pubkey_pair.crypto_key).unwrap();
    let outcome = KdtCryptoHandler::decrypt_msg(&encrypted, &keyset_2.privkey_pair.crypto_key);
    assert_eq!(outcome.unwrap_err(), KdtErr::AuthenticationError);
}

#[test]
fn malformed_keys_fail_with_typed_errors() {
    let keyset = OwnedKeySet::generate("Edge".into()).unwrap();
    let short_pubkey = vec![1u8, 2, 3];
    assert_eq!(
        KdtCryptoHandler::encrypt_text("hi", &short_pubkey).unwrap_err(),
        KdtErr::EncapsulationError
    );
    let encrypted = KdtCryptoHandler::encrypt_text("hi", &keyset.pubkey_pair.crypto_key).unwrap();
    let short_privkey = vec![9u8; 17];
    assert_eq!(
        KdtCryptoHandler::decrypt_msg(&encrypted, &short_privkey).unwrap_err(),
        KdtErr::DecapsulationError
    );
}

#[test]
fn nonces_are_fresh_per_encryption() {
    let keyset = OwnedKeySet::generate("Fresh".into()).unwrap();
    let first =
        KdtCryptoHandler::encrypt_text("identical plaintext", &keyset.pubkey_pair.crypto_key)
            .unwrap();
    let second =
        KdtCryptoHandler::encrypt_text("identical plaintext", &keyset.pubkey_pair.crypto_key)
            .unwrap();
    assert_ne!(first.nonce, second.nonce);
    assert_ne!(first.encrypted_message, second.encrypted_message);
}

#[test]
fn tampering_breaks_verification() {
    let keyset = OwnedKeySet::generate("Signer".into()).unwrap();
    let signed = KdtSignageHandler::sign_text("hello world", keyset.signer.as_ref().unwrap());
    assert!(KdtSignageHandler::verify(&signed, &keyset.pubkey_pair.signage_key));

    // A changed message no longer verifies.
    let altered_message = KdtSignedMessage::new("hello worle".into(), signed.signature.clone());
    assert!(!KdtSignageHandler::verify(&altered_message, &keyset.pubkey_pair.signage_key));

    // A changed signature no longer verifies.
    let mut bad_signature = signed.signature.clone();
    bad_signature[0] = bad_signature[0].wrapping_add(1);
    let altered_signature = KdtSignedMessage::new("hello world".into(), bad_signature);
    assert!(!KdtSignageHandler::verify(&altered_signature, &keyset.pubkey_pair.signage_key));

    // A wrong verification key no longer verifies.
    let other = OwnedKeySet::generate("Signer".into()).unwrap();
    assert!(!KdtSignageHandler::verify(&signed, &other.pubkey_pair.signage_key));
}

#[test]
fn wrong_length_verification_key_reads_as_false() {
    let keyset = OwnedKeySet::generate("Short".into()).unwrap();
    let signed = KdtSignageHandler::sign_text("hello", keyset.signer.as_ref().unwrap());
    // Directly: a key of the wrong length is an ordinary rejection.
    let short_key = vec![1u8, 2, 3];
    assert!(!KdtSignageHandler::verify(&signed, &short_key));

    // Through the handler: an imported record whose signing key has the
    // wrong length verifies any message to false instead of crashing.
    let mut handler = empty_handler();
    let record = PubKeyPair::new(vec![1, 2, 3], vec![4, 5, 6], "Short".into()).init();
    let pub_id = handler.register_pubkey(record.to_text()).unwrap();
    assert!(!handler.verify(pub_id, signed.to_text()).unwrap());
}

#[test]
fn handler_sign_and_verify_by_id() {
    let mut alice = empty_handler();
    let priv_id = alice.gen_key("Alice".into()).unwrap();
    let keyset = alice.ownedkey_db.get_by_id(priv_id.clone()).unwrap();

    let mut bob = empty_handler();
    let pub_id = bob.register_pubkey(keyset.pubkey_pair.to_text()).unwrap();

    let signed_text = alice.sign(priv_id, "signed by alice".into()).unwrap();
    assert!(bob.verify(pub_id.clone(), signed_text.clone()).unwrap());

    let tampered = signed_text.replace("alice", "chuck");
    assert!(!bob.verify(pub_id.clone(), tampered).unwrap());

    assert_eq!(
        bob.verify(pub_id, "garbage".into()).unwrap_err(),
        KdtErr::EnvelopeFormat
    );
}

#[test]
fn restored_keyset_cannot_sign_in_this_session() {
    let generated = OwnedKeySet::generate("Importer".into()).unwrap();
    let restored = OwnedKeySet::from_strs(
        generated.pubkey_pair.to_text(),
        generated.privkey_pair.to_text(),
    )
    .unwrap();
    let mut handler = empty_handler();
    handler.ownedkey_db.keys.push(restored);
    let id = generated.privkey_pair.id.clone();
    assert_eq!(
        handler.sign(id, "anything".into()).unwrap_err(),
        KdtErr::SigningKeyUnavailable
    );
}

#[test]
fn end_to_end_exchange() {
    // Alice generates her keyset and exports the public record as text.
    let mut alice = empty_handler();
    let alice_priv_id = alice.gen_key("Alice".into()).unwrap();
    let alice_set = alice.ownedkey_db.get_by_id(alice_priv_id.clone()).unwrap();
    let exported = alice_set.pubkey_pair.to_text();

    // Bob generates his own keyset and imports Alice's public record.
    let mut bob = empty_handler();
    bob.gen_key("Bob".into()).unwrap();
    let imported_id = bob.register_pubkey(exported).unwrap();
    // The import re-derives the same content-hash id.
    assert_eq!(imported_id, alice_set.pubkey_pair.id);

    // Bob encrypts against the imported id; Alice decrypts with her own.
    let envelope = bob.encrypt(imported_id, "hello".into()).unwrap();
    let plain = alice.decrypt(alice_priv_id, envelope).unwrap();
    assert_eq!(plain, "hello");
}
