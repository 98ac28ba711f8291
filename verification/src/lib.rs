//! Hybrid post-quantum encryption and signing toolkit.
//!
//! The crate combines a key-encapsulation mechanism (Kyber) with an AEAD
//! cipher (AES-256-GCM) to protect messages for a recipient identified by a
//! public key, and a post-quantum signature scheme (Dilithium) to sign and
//! verify messages.  Keys and messages travel as human-shareable ASCII
//! envelopes built from a base64 codec and a fixed-width armor format, and
//! key records are identified by a content hash of their canonical text.

pub mod arguments;
pub mod codec;
pub mod crypto;
pub mod database;
pub mod encrypted_message;
pub mod envelope;
pub mod errors;
pub mod handler;
pub mod hashing;
pub mod kem;
pub mod key;
pub mod message;
pub mod privkey;
pub mod pubkey;
pub mod sealing;
pub mod signed_message;
pub mod signing;
pub mod text;
