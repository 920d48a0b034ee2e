//! Key types and key pairs.

use vstd::prelude::*;
use crate::bytes::copy_bytes;
use crate::ed25519;
use crate::error::Error;
use crate::text::str_eq;

verus! {

/// The kinds of keys the crate knows.
#[derive(Clone, Copy, Debug, PartialEq, Eq, Structural)]
pub enum KeyType {
    Ed25519,
}

impl KeyType {
    /// The name the key type goes by in JSON.
    pub open spec fn spec_name(self) -> Seq<char> {
        match self {
            KeyType::Ed25519 => "ed25519"@,
        }
    }

    /// The name the key type goes by in JSON.
    pub fn name(self) -> (s: &'static str)
        ensures
            s@ == self.spec_name(),
    {
        match self {
            KeyType::Ed25519 => "ed25519",
        }
    }

    /// The key type that goes by `name`, if there is one.
    pub open spec fn spec_parse(name: Seq<char>) -> Option<KeyType> {
        if name == "ed25519"@ {
            Some(KeyType::Ed25519)
        } else {
            None
        }
    }

    /// The key type that goes by `name`, if there is one.
    pub fn parse(name: &str) -> (t: Option<KeyType>)
        ensures
            t == Self::spec_parse(name@),
    {
        if str_eq(name, "ed25519") {
            Some(KeyType::Ed25519)
        } else {
            None
        }
    }

    /// Length in bytes of a secret key of this type.
    pub open spec fn spec_secret_len(self) -> nat {
        match self {
            KeyType::Ed25519 => 32,
        }
    }

    /// Length in bytes of a secret key of this type.
    pub fn secret_len(self) -> (n: usize)
        ensures
            n == self.spec_secret_len(),
    {
        match self {
            KeyType::Ed25519 => 32,
        }
    }

    /// The public key that belongs to `secret`.
    pub open spec fn spec_public_of(self, secret: Seq<u8>) -> Seq<u8> {
        match self {
            KeyType::Ed25519 => ed25519::spec_ed25519_public(secret),
        }
    }
}

/// A public key with the secret key that belongs to it.
#[derive(Clone, Debug, PartialEq, Eq)]
pub struct KeyPair {
    type_: KeyType,
    public: Vec<u8>,
    secret: Vec<u8>,
}

impl KeyPair {
    /// The kind of the two keys.
    pub closed spec fn spec_type(&self) -> KeyType {
        self.type_
    }

    /// The bytes of the public key.
    pub closed spec fn spec_public(&self) -> Seq<u8> {
        self.public@
    }

    /// The bytes of the secret key.
    pub closed spec fn spec_secret(&self) -> Seq<u8> {
        self.secret@
    }

    /// Pairs up two keys as given.
    pub fn from_keys(type_: KeyType, public: Vec<u8>, secret: Vec<u8>) -> (pair: KeyPair)
        ensures
            pair.spec_type() == type_,
            pair.spec_public() == public@,
            pair.spec_secret() == secret@,
    {
        KeyPair { type_, public, secret }
    }

    /// The key pair that belongs to a secret key. Fails with `MalformedKey`
    /// exactly when the secret key has the wrong length for its type.
    pub fn from_secret(type_: KeyType, secret: Vec<u8>) -> (r: Result<KeyPair, Error>)
        ensures
            secret@.len() == type_.spec_secret_len() ==> r is Ok,
            secret@.len() != type_.spec_secret_len() ==> r == Err::<KeyPair, Error>(Error::MalformedKey),
            r is Ok ==> r->Ok_0.spec_type() == type_ && r->Ok_0.spec_secret() == secret@
                && r->Ok_0.spec_public() == type_.spec_public_of(secret@),
    {
        match type_ {
            KeyType::Ed25519 => {
                if secret.len() != 32 {
                    return Err(Error::MalformedKey);
                }
                let public: Vec<u8> = ed25519::ed25519_public(secret.as_slice());
                Ok(KeyPair { type_, public, secret })
            },
        }
    }

    /// A fresh key pair from the system's source of randomness. Fails with
    /// `GenerationFailure` when that source does.
    pub fn generate(type_: KeyType) -> (r: Result<KeyPair, Error>)
        ensures
            r is Err ==> r == Err::<KeyPair, Error>(Error::GenerationFailure),
            r is Ok ==> r->Ok_0.spec_type() == type_
                && r->Ok_0.spec_secret().len() == type_.spec_secret_len()
                && r->Ok_0.spec_public() == type_.spec_public_of(r->Ok_0.spec_secret()),
    {
        match ed25519::random_bytes(type_.secret_len()) {
            Some(seed) => Self::from_secret(type_, seed),
            None => Err(Error::GenerationFailure),
        }
    }

    /// The kind of the two keys.
    pub fn type_(&self) -> (t: KeyType)
        ensures
            t == self.spec_type(),
    {
        self.type_
    }

    /// The public key.
    pub fn public(&self) -> (k: &[u8])
        ensures
            k@ == self.spec_public(),
    {
        self.public.as_slice()
    }

    /// The secret key.
    pub fn secret(&self) -> (k: &[u8])
        ensures
            k@ == self.spec_secret(),
    {
        self.secret.as_slice()
    }

    /// A copy of the pair.
    pub fn copy(&self) -> (pair: KeyPair)
        ensures
            pair.spec_type() == self.spec_type(),
            pair.spec_public() == self.spec_public(),
            pair.spec_secret() == self.spec_secret(),
    {
        KeyPair {
            type_: self.type_,
            public: copy_bytes(self.public.as_slice()),
            secret: copy_bytes(self.secret.as_slice()),
        }
    }
}

} // verus!
