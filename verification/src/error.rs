//! The failures the crate reports.

use vstd::prelude::*;

verus! {

/// Every failure a function of this crate can return. None is fatal: the
/// caller decides what to do next.
#[derive(Clone, Copy, Debug, PartialEq, Eq, Structural)]
pub enum Error {
    /// The source of randomness failed while keys were generated.
    GenerationFailure,
    /// A value could not be encoded or decoded (base58, canonical JSON).
    EncodingFailure,
    /// A collection of keys would have been empty.
    EmptyCollection,
    /// A key has the wrong length or shape for its type.
    MalformedKey,
    /// An encoded Merkle proof could not be read.
    MalformedProof,
    /// An index lies beyond the last element.
    IndexOutOfRange,
    /// The resolver found no method for the identifier in the scope.
    UnresolvedMethod,
    /// A key collection has no secret key at the index.
    InvalidSecretIndex,
    /// A key collection has no Merkle proof for the index.
    InvalidPublicProof,
    /// A signature is missing, malformed or does not fit the data.
    InvalidSignature,
    /// A document broke an invariant after a change.
    ValidationFailure,
    /// A tag names no supported key type or digest.
    UnsupportedAlgorithm,
}

impl Error {
    /// A short description of the failure.
    pub open spec fn spec_describe(self) -> Seq<char> {
        match self {
            Error::GenerationFailure => "key generation failed"@,
            Error::EncodingFailure => "encoding failed"@,
            Error::EmptyCollection => "empty key collection"@,
            Error::MalformedKey => "malformed key"@,
            Error::MalformedProof => "malformed proof"@,
            Error::IndexOutOfRange => "index out of range"@,
            Error::UnresolvedMethod => "verification method not found"@,
            Error::InvalidSecretIndex => "invalid secret key index"@,
            Error::InvalidPublicProof => "invalid public key proof"@,
            Error::InvalidSignature => "invalid signature"@,
            Error::ValidationFailure => "invalid document"@,
            Error::UnsupportedAlgorithm => "unsupported algorithm"@,
        }
    }

    /// A short description of the failure.
    pub fn describe(&self) -> (text: &'static str)
        ensures
            text@ == self.spec_describe(),
    {
        match self {
            Error::GenerationFailure => "key generation failed",
            Error::EncodingFailure => "encoding failed",
            Error::EmptyCollection => "empty key collection",
            Error::MalformedKey => "malformed key",
            Error::MalformedProof => "malformed proof",
            Error::IndexOutOfRange => "index out of range",
            Error::UnresolvedMethod => "verification method not found",
            Error::InvalidSecretIndex => "invalid secret key index",
            Error::InvalidPublicProof => "invalid public key proof",
            Error::InvalidSignature => "invalid signature",
            Error::ValidationFailure => "invalid document",
            Error::UnsupportedAlgorithm => "unsupported algorithm",
        }
    }
}

} // verus!
