//! Tests of the base64 codec, the armor framer and the record envelopes.

use kdt::codec::Base64;
use kdt::encrypted_message::{KdtEncryptedMessage, Message};
use kdt::envelope::{unwrap, wrap, Tag};
use kdt::errors::KdtErr;
use kdt::pubkey::PubKeyPair;
use kdt::signed_message::KdtSignedMessage;

#[test]
fn base64_known_values() {
    assert_eq!(Base64::encode_bytes(&[]), "");
    assert_eq!(Base64::encode_bytes(b"f"), "Zg==");
    assert_eq!(Base64::encode_bytes(b"fo"), "Zm8=");
    assert_eq!(Base64::encode_bytes(b"foo"), "Zm9v");
    assert_eq!(Base64::encode_bytes(&[1, 2, 3]), "AQID");
}

#[test]
fn base64_round_trip() {
    let cases: Vec<Vec<u8>> = vec![
        vec![],
        vec![0],
        vec![255],
        vec![0, 1],
        vec![10, 20, 30],
        (0u16..=255).map(|b| b as u8).collect(),
        vec![7; 1000],
    ];
    for bytes in cases {
        let encoded = Base64::encode_bytes(&bytes);
        let decoded = Base64::decode_string(&encoded).unwrap();
        assert_eq!(decoded, bytes);
    }
}

#[test]
fn base64_rejects_malformed() {
    for bad in ["A", "AB", "ABC", "====", "A===", "Zg=", "AQID*", "Zm[=", "Zh==", "Zm9="] {
        assert_eq!(Base64::decode_string(bad).unwrap_err(), KdtErr::MalformedEncoding);
    }
}

#[test]
fn envelope_round_trip_all_tags() {
    for tag in [Tag::PubkeyBlock, Tag::PrivkeyBlock, Tag::Message] {
        let fields = vec![String::from("AQID"), String::from("BAUG"), String::from("QW5u")];
        let text = wrap(tag, &fields);
        let back = unwrap(tag, &text).unwrap();
        assert_eq!(back, fields);
    }
}

#[test]
fn envelope_round_trip_empty_fields() {
    let fields = vec![String::new(), String::new(), String::new()];
    let text = wrap(Tag::Message, &fields);
    let back = unwrap(Tag::Message, &text).unwrap();
    assert_eq!(back, fields);
}

#[test]
fn envelope_wraps_long_bodies_at_64_columns() {
    let fields = vec!["a".repeat(100), String::from("bb"), String::from("c")];
    let text = wrap(Tag::Message, &fields);
    assert_eq!(
        text,
        "-----BEGIN KDT MESSAGE-----\n\
         aaaaaaaaaaaaaaaaaaaaaaaaaaaaaaaaaaaaaaaaaaaaaaaaaaaaaaaaaaaaaaaa\n\
         aaaaaaaaaaaaaaaaaaaaaaaaaaaaaaaaaaaa*bb*c\n\
         -----END KDT MESSAGE-----"
    );
    let back = unwrap(Tag::Message, &text).unwrap();
    assert_eq!(back, fields);
}

#[test]
fn envelope_rejects_malformed() {
    assert_eq!(unwrap(Tag::Message, "").unwrap_err(), KdtErr::EnvelopeFormat);
    assert_eq!(unwrap(Tag::Message, "hello").unwrap_err(), KdtErr::EnvelopeFormat);
    // Wrong tag markers.
    let text = wrap(Tag::PubkeyBlock, &vec![String::from("A"), String::from("B"), String::from("C")]);
    assert_eq!(unwrap(Tag::Message, &text).unwrap_err(), KdtErr::EnvelopeFormat);
    // Wrong field count.
    let text =
        "-----BEGIN KDT MESSAGE-----\nAQID*BAUG\n-----END KDT MESSAGE-----";
    assert_eq!(unwrap(Tag::Message, text).unwrap_err(), KdtErr::EnvelopeFormat);
}

#[test]
fn message_envelope_exact_text() {
    let m = KdtEncryptedMessage::new(vec![1, 2, 3], vec![4, 5, 6], vec![7, 8, 9]);
    let text = m.to_text();
    assert_eq!(text, "-----BEGIN KDT MESSAGE-----\nAQID*BAUG*BwgJ\n-----END KDT MESSAGE-----");
    let back = KdtEncryptedMessage::from_str(text).unwrap();
    assert_eq!(back.encrypted_secret, vec![1, 2, 3]);
    assert_eq!(back.encrypted_message, vec![4, 5, 6]);
    assert_eq!(back.nonce, vec![7, 8, 9]);
}

#[test]
fn message_string_variant_round_trip() {
    let m = Message::new("AQID".into(), "BAUG".into(), "BwgJ".into());
    let text = m.to_text();
    let back = Message::from_str(text).unwrap();
    assert_eq!(back.encrypted_secret, "AQID");
    assert_eq!(back.encrypted_message, "BAUG");
    assert_eq!(back.nonce, "BwgJ");
}

#[test]
fn message_envelope_rejects_bad_base64_fields() {
    let text = "-----BEGIN KDT MESSAGE-----\n!!!*BAUG*BwgJ\n-----END KDT MESSAGE-----";
    assert_eq!(
        KdtEncryptedMessage::from_str(text.into()).unwrap_err(),
        KdtErr::MalformedEncoding
    );
}

#[test]
fn pubkey_record_canonical_text_and_id() {
    let record = PubKeyPair::new(vec![1, 2, 3], vec![4, 5, 6], "Ann".into());
    let text = record.to_text();
    assert_eq!(
        text,
        "-----BEGIN KDT PUBKEY BLOCK-----\nAQID*BAUG*QW5u\n-----END KDT PUBKEY BLOCK-----"
    );
    let record = record.init();
    assert_eq!(
        record.id,
        "FD5AC7F3A47F30C37AB2203D858FF7FA4752F00C079746780C678FF95DA16FF0"
    );
    // The id is derived from the id-free text: rendering is unchanged.
    assert_eq!(record.to_text(), text);
}

#[test]
fn pubkey_record_round_trip() {
    let record = PubKeyPair::new(vec![9, 8, 7], vec![6, 5], "Grace Hopper".into()).init();
    let text = record.to_text();
    let back = PubKeyPair::from_str(text).unwrap().init();
    assert_eq!(back.crypto_key, record.crypto_key);
    assert_eq!(back.signage_key, record.signage_key);
    assert_eq!(back.owner, record.owner);
    assert_eq!(back.id, record.id);
}

#[test]
fn pubkey_record_rejects_malformed() {
    assert_eq!(
        PubKeyPair::from_str("no markers here".into()).unwrap_err(),
        KdtErr::EnvelopeFormat
    );
    let text = "-----BEGIN KDT PUBKEY BLOCK-----\n?*BAUG*QW5u\n-----END KDT PUBKEY BLOCK-----";
    assert_eq!(PubKeyPair::from_str(text.into()).unwrap_err(), KdtErr::MalformedEncoding);
}

#[test]
fn signed_message_preserves_text_exactly() {
    let message = String::from("  spaced\nand multi-line\ttext  ");
    let sm = KdtSignedMessage::new(message.clone(), vec![1, 2, 3, 4]);
    let text = sm.to_text();
    let back = KdtSignedMessage::from_str(text).unwrap();
    assert_eq!(back.message, message);
    assert_eq!(back.signature, vec![1, 2, 3, 4]);
}

#[test]
fn signed_message_exact_text() {
    let sm = KdtSignedMessage::new("hi".into(), vec![1, 2, 3]);
    assert_eq!(
        sm.to_text(),
        "-----BEGIN KDT SIGNED MESSAGE-----\nhi\n\n-----BEGIN KDT SIGNATURE-----\nAQID\n-----END KDT SIGNATURE-----"
    );
}

#[test]
fn signed_message_rejects_malformed() {
    assert_eq!(
        KdtSignedMessage::from_str("not a signed message".into()).unwrap_err(),
        KdtErr::EnvelopeFormat
    );
    let text = "-----BEGIN KDT SIGNED MESSAGE-----\nhi\n\n-----BEGIN KDT SIGNATURE-----\n@@@@\n-----END KDT SIGNATURE-----";
    assert_eq!(
        KdtSignedMessage::from_str(text.into()).unwrap_err(),
        KdtErr::MalformedEncoding
    );
}
