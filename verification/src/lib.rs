//! Decentralized-identifier documents and the cryptographic layer beneath
//! them: canonical hashing, Merkle commitments over batches of keys, Merkle
//! key collection signatures and signed document diffs.

pub mod actor;
pub mod base58;
pub mod bytes;
pub mod credential;
pub mod diff;
pub mod digest;
pub mod document;
pub mod document_json;
pub mod document_update;
pub mod ed25519;
pub mod error;
pub mod jcs;
pub mod jcs_order;
pub mod json;
pub mod key;
pub mod key_collection;
pub mod merkle;
pub mod merkle_key;
pub mod method;
pub mod method_query;
pub mod new_document;
pub mod signature;
pub mod text;
pub mod verifiable;
