//! The command-line action set, modeled as plain flags and optional ids.
//! The surrounding application parses the real command line into this
//! shape; the rule that at most one action runs per invocation is checked
//! here.

use vstd::prelude::*;

use crate::errors::KdtErr;

verus! {

/// One invocation's requested actions: a flag or an id-carrying option per
/// command.
#[derive(Clone, Debug)]
pub struct Args {
    /// Generate a new owned keyset.
    pub gen_key: bool,
    /// Import a public key from input.
    pub import: bool,
    /// Decrypt a message with the private key of this id.
    pub decrypt: Option<String>,
    /// Encrypt a message against the public key of this id.
    pub encrypt: Option<String>,
    /// List the public key database.
    pub list_keys: bool,
    /// List the owned key database.
    pub list_key_pairs: bool,
    /// Export the public record of the owned keyset with this private id.
    pub export_pubkey: Option<String>,
    /// Remove the public key with this id.
    pub del_pubkey: Option<String>,
    /// Remove the owned keyset with this private id.
    pub del_keyset: Option<String>,
    /// Sign a message with the private key of this id.
    pub sign: Option<String>,
    /// Verify a signed message against the public key of this id.
    pub verify: Option<String>,
}

impl Args {
    /// How many of the actions were requested.
    pub open spec fn spec_num_called(self) -> int {
        (if self.gen_key {
            1int
        } else {
            0int
        }) + (if self.import {
            1int
        } else {
            0int
        }) + (if self.list_keys {
            1int
        } else {
            0int
        }) + (if self.list_key_pairs {
            1int
        } else {
            0int
        }) + (if self.encrypt is Some {
            1int
        } else {
            0int
        }) + (if self.export_pubkey is Some {
            1int
        } else {
            0int
        }) + (if self.del_pubkey is Some {
            1int
        } else {
            0int
        }) + (if self.del_keyset is Some {
            1int
        } else {
            0int
        }) + (if self.decrypt is Some {
            1int
        } else {
            0int
        }) + (if self.sign is Some {
            1int
        } else {
            0int
        }) + (if self.verify is Some {
            1int
        } else {
            0int
        })
    }

    /// Counts the requested actions.
    pub fn get_num_called(&self) -> (r: usize)
        ensures
            r as int == self.spec_num_called(),
            r <= 11,
    {
        let mut count: usize = 0;
        if self.gen_key {
            count = count + 1;
        }
        if self.import {
            count = count + 1;
        }
        if self.list_keys {
            count = count + 1;
        }
        if self.list_key_pairs {
            count = count + 1;
        }
        if self.encrypt.is_some() {
            count = count + 1;
        }
        if self.export_pubkey.is_some() {
            count = count + 1;
        }
        if self.del_pubkey.is_some() {
            count = count + 1;
        }
        if self.del_keyset.is_some() {
            count = count + 1;
        }
        if self.decrypt.is_some() {
            count = count + 1;
        }
        if self.sign.is_some() {
            count = count + 1;
        }
        if self.verify.is_some() {
            count = count + 1;
        }
        count
    }

    /// Accepts the invocation exactly when at most one action was
    /// requested; more than one fails with [`KdtErr::TooManyArgs`].
    pub fn fail_if_invalid(&self) -> (r: Result<(), KdtErr>)
        ensures
            r is Ok <==> self.spec_num_called() <= 1,
            match r {
                Ok(_) => true,
                Err(e) => e == KdtErr::TooManyArgs,
            },
    {
        if self.get_num_called() > 1 {
            return Err(KdtErr::TooManyArgs);
        }
        Ok(())
    }
}

} // verus!
