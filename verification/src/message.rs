//! The shared shape of everything that parses from envelope text: one
//! constructor that reads a value back from its armored form.

use vstd::prelude::*;

use crate::encrypted_message::{KdtEncryptedMessage, Message};
use crate::errors::KdtErr;
use crate::signed_message::KdtSignedMessage;

verus! {

/// A value restorable from its envelope text.  Each implementation's
/// inherent `from_str` states the exact parsing contract; this trait only
/// gives the three envelope-borne types one common door.
pub trait KdtMessage: Sized {
    /// Restores a value from its envelope text.
    fn from_str(message_str: String) -> Result<Self, KdtErr>;
}

impl KdtMessage for KdtSignedMessage {
    fn from_str(message_str: String) -> Result<Self, KdtErr> {
        KdtSignedMessage::from_str(message_str)
    }
}

impl KdtMessage for KdtEncryptedMessage {
    fn from_str(message_str: String) -> Result<Self, KdtErr> {
        KdtEncryptedMessage::from_str(message_str)
    }
}

impl KdtMessage for Message {
    fn from_str(message_str: String) -> Result<Self, KdtErr> {
        Message::from_str(message_str)
    }
}

} // verus!
