//! Hash functions the rest of the crate is parameterised by.

use vstd::prelude::*;
use sha2::Digest as Sha2Digest;
use crate::text::str_eq;

verus! {

/// The SHA-256 digest of `data`, as computed by the `sha2` crate.
pub uninterp spec fn spec_sha256(data: Seq<u8>) -> Seq<u8>;

/// Calls `sha2::Sha256::digest`. The contract names the digest and records
/// that SHA-256 yields 32 bytes.
#[verifier::external_body]
fn sha256(data: &[u8]) -> (out: Vec<u8>)
    ensures
        out@ == spec_sha256(data@),
        out@.len() == 32,
{
    sha2::Sha256::digest(data).to_vec()
}

/// Selects a hash function. Chosen at call sites, never stored with data.
#[derive(Clone, Copy, Debug, PartialEq, Eq, Structural)]
pub enum Digest {
    Sha256,
}

impl Digest {
    /// Number of bytes the selected hash function produces.
    pub open spec fn spec_output_size(self) -> nat {
        match self {
            Digest::Sha256 => 32,
        }
    }

    /// What the selected hash function yields on `data`.
    pub open spec fn spec_hash(self, data: Seq<u8>) -> Seq<u8> {
        match self {
            Digest::Sha256 => spec_sha256(data),
        }
    }

    /// The name the digest goes by.
    pub open spec fn spec_name(self) -> Seq<char> {
        match self {
            Digest::Sha256 => "sha256"@,
        }
    }

    /// The name the digest goes by.
    pub fn name(self) -> (s: &'static str)
        ensures
            s@ == self.spec_name(),
    {
        match self {
            Digest::Sha256 => "sha256",
        }
    }

    /// The digest that goes by `name`, if there is one. SHA-256 goes by
    /// `sha256`, `Sha256` and `SHA256`.
    pub open spec fn spec_parse(name: Seq<char>) -> Option<Digest> {
        if name == "sha256"@ || name == "Sha256"@ || name == "SHA256"@ {
            Some(Digest::Sha256)
        } else {
            None
        }
    }

    /// The digest that goes by `name`, if there is one.
    pub fn parse(name: &str) -> (d: Option<Digest>)
        ensures
            d == Self::spec_parse(name@),
    {
        if str_eq(name, "sha256") || str_eq(name, "Sha256") || str_eq(name, "SHA256") {
            Some(Digest::Sha256)
        } else {
            None
        }
    }

    /// Number of bytes the selected hash function produces.
    pub fn output_size(self) -> (n: usize)
        ensures
            n == self.spec_output_size(),
    {
        match self {
            Digest::Sha256 => 32,
        }
    }

    /// Hashes `data` with the selected function.
    pub fn hash(self, data: &[u8]) -> (out: Hash)
        ensures
            out@ == self.spec_hash(data@),
            out@.len() == self.spec_output_size(),
    {
        match self {
            Digest::Sha256 => Hash { bytes: sha256(data) },
        }
    }
}

/// The output of a hash function: an opaque string of bytes.
#[derive(Clone, Debug, PartialEq, Eq)]
pub struct Hash {
    bytes: Vec<u8>,
}

impl View for Hash {
    type V = Seq<u8>;

    closed spec fn view(&self) -> Seq<u8> {
        self.bytes@
    }
}

impl Hash {
    /// Wraps raw digest bytes.
    pub fn from_bytes(bytes: Vec<u8>) -> (h: Hash)
        ensures
            h@ == bytes@,
    {
        Hash { bytes }
    }

    /// The raw bytes.
    pub fn as_slice(&self) -> (s: &[u8])
        ensures
            s@ == self@,
    {
        self.bytes.as_slice()
    }

    /// Tells whether both hashes hold the same bytes.
    pub fn same(&self, other: &Hash) -> (b: bool)
        ensures
            b == (self@ == other@),
    {
        crate::bytes::bytes_eq(self.bytes.as_slice(), other.bytes.as_slice())
    }

    /// The hash as base58 text.
    pub fn to_b58(&self) -> (text: String)
        ensures
            text@ == crate::base58::spec_b58_encode(self@),
    {
        crate::base58::encode_b58(self.bytes.as_slice())
    }

    /// A copy of this hash.
    pub fn copy(&self) -> (h: Hash)
        ensures
            h@ == self@,
    {
        Hash { bytes: crate::bytes::copy_bytes(self.bytes.as_slice()) }
    }
}

} // verus!
