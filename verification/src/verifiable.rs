//! Signatures made with one key of a Merkle key collection.
//!
//! A document holds a verification method whose key data is a Merkle key:
//! the root of the tree over the public keys of a collection. A payload is
//! signed with the secret key at one index of the collection; the signature
//! carries the inclusion proof of the public key at that index. Checking the
//! raw signature and checking the proof against the root are two steps: the
//! first trusts the public key it is given, the second ties that key to the
//! document.

use vstd::prelude::*;
use crate::digest::Digest;
use crate::document::Document;
use crate::document::SpecDocument;
use crate::document::spec_resolve;
use crate::error::Error;
use crate::json::Json;
use crate::json::Value;
use crate::json::lemma_get_push;
use crate::json::lemma_without;
use crate::json::spec_entry_views;
use crate::json::spec_without;
use crate::key::KeyType;
use crate::key_collection::KeyCollection;
use crate::key_collection::spec_publics;
use crate::merkle;
use crate::merkle_key;
use crate::method::Method;
use crate::method::MethodIdent;
use crate::method::MethodScope;
use crate::method::SpecIdent;
use crate::method_query::MethodQuery;
use crate::signature::MerkleData;
use crate::signature::Signature;
use crate::signature::SpecSignature;
use crate::signature::lemma_signature_round_trip;
use crate::signature::sign_value;
use crate::signature::spec_merkle_type;
use crate::signature::spec_sign_value;
use crate::signature::spec_signature_from_json;
use crate::signature::spec_signature_json;
use crate::signature::spec_verify_value;
use crate::signature::verify_value;
use crate::text::copy_str;

verus! {

/// An object without its members `proof`; none for a value that is no
/// object.
pub open spec fn spec_bare(j: Json) -> Option<Json> {
    match j {
        Json::Object(entries) => Some(Json::Object(spec_without(entries, "proof"@))),
        _ => None,
    }
}

/// An object with the JSON form of a signature as its last member, `proof`.
pub open spec fn spec_with_proof(j: Json, sig: SpecSignature) -> Json {
    Json::Object(j->Object_0.push(("proof"@, spec_signature_json(sig))))
}

/// The signature that a payload carries in its member `proof`, if it
/// carries one that reads as a signature.
pub open spec fn spec_carried(j: Json) -> Option<SpecSignature> {
    match j.get("proof"@) {
        Some(p) => spec_signature_from_json(p),
        None => None,
    }
}

/// What signing a payload with the key at `index` of a collection comes to,
/// for the method named `method` of a document. In this order: the payload
/// must be an object; the method must be found in the document, in any list;
/// its key data must be a Merkle key, whose digest is taken; the collection
/// must have a key at `index`, and a proof for it; the payload without its
/// members `proof` must have a canonical form. The outcome is the payload
/// with the signature as its member `proof`.
pub open spec fn spec_sign_merkle(
    d: SpecDocument,
    payload: Json,
    keys: Seq<(Seq<u8>, Seq<u8>)>,
    method: Seq<char>,
    index: int,
) -> Result<Json, Error> {
    match spec_bare(payload) {
        None => Err(Error::EncodingFailure),
        Some(bare) => match spec_resolve(d, SpecIdent::Ident(method), MethodScope::Any) {
            None => Err(Error::UnresolvedMethod),
            Some(m) => match merkle_key::spec_extract_tags(m.key_data) {
                Err(e) => Err(e),
                Ok((_, digest)) => if !(0 <= index < keys.len()) {
                    Err(Error::InvalidSecretIndex)
                } else {
                    match merkle::spec_tree_proof(digest, spec_publics(keys), index) {
                        None => Err(Error::InvalidPublicProof),
                        Some(nodes) => match spec_sign_value(bare, method, keys[index].1) {
                            Err(e) => Err(e),
                            Ok(sig) => Ok(
                                spec_with_proof(
                                    bare,
                                    SpecSignature {
                                        type_: spec_merkle_type(),
                                        merkle: Some((digest, merkle::spec_encode(nodes))),
                                        ..sig
                                    },
                                ),
                            ),
                        },
                    }
                },
            },
        },
    }
}

/// What checking the raw signature of a payload under a given public key
/// comes to. The payload must be an object and carry a signature; what was
/// signed is the payload without its members `proof`. The inclusion proof
/// that the signature carries is not looked at.
pub open spec fn spec_verify_merkle(payload: Json, target: Seq<u8>) -> Result<(), Error> {
    match spec_bare(payload) {
        None => Err(Error::EncodingFailure),
        Some(bare) => match spec_carried(payload) {
            None => Err(Error::InvalidSignature),
            Some(sig) => spec_verify_value(bare, sig.value, target),
        },
    }
}

/// What checking the inclusion proof that a signed payload carries comes
/// to: the signature must have a Merkle part; the method it names must be
/// found in the document and hold a Merkle key with the digest of the
/// signature; the proof must decode; and replayed from the leaf hash of the
/// given public key it must reach the root that the method holds.
pub open spec fn spec_verify_inclusion(d: SpecDocument, sig: SpecSignature, target: Seq<u8>) -> Result<(), Error> {
    match sig.merkle {
        None => Err(Error::InvalidPublicProof),
        Some((digest, encoded)) => match spec_resolve(
            d,
            SpecIdent::Ident(sig.verification_method),
            MethodScope::Any,
        ) {
            None => Err(Error::UnresolvedMethod),
            Some(m) => match (merkle_key::spec_extract_tags(m.key_data), merkle_key::spec_extract_root(m.key_data)) {
                (Ok((_, d2)), Ok(root)) => if d2 != digest {
                    Err(Error::InvalidPublicProof)
                } else {
                    match merkle::spec_decode(digest, encoded) {
                        None => Err(Error::MalformedProof),
                        Some(nodes) => if merkle::spec_verify(
                            digest,
                            nodes,
                            merkle::spec_leaf_hash(digest, target),
                            root,
                        ) {
                            Ok(())
                        } else {
                            Err(Error::InvalidPublicProof)
                        },
                    }
                },
                (Err(e), _) => Err(e),
                (_, Err(e)) => Err(e),
            },
        },
    }
}

/// What checking both the raw signature and the inclusion proof of a signed
/// payload comes to: the raw signature first.
pub open spec fn spec_verify_merkle_full(d: SpecDocument, payload: Json, target: Seq<u8>) -> Result<(), Error> {
    match spec_verify_merkle(payload, target) {
        Err(e) => Err(e),
        Ok(_) => spec_verify_inclusion(d, spec_carried(payload)->0, target),
    }
}

/// Whether the method named `method` of a document holds the Merkle key of
/// a collection: the tags of its type and of a digest, and the root of the
/// tree over its public keys.
pub open spec fn spec_commits(d: SpecDocument, method: Seq<char>, t: KeyType, keys: Seq<(Seq<u8>, Seq<u8>)>) -> bool {
    match spec_resolve(d, SpecIdent::Ident(method), MethodScope::Any) {
        Some(m) => match merkle_key::spec_extract_tags(m.key_data) {
            Ok((_, digest)) => m.key_data == merkle_key::spec_encode_key(
                t,
                digest,
                merkle::spec_tree_root(digest, spec_publics(keys)),
            ),
            Err(_) => false,
        },
        None => false,
    }
}

/// A payload that was given a signature as its member `proof` carries that
/// signature, and without it is what it was before.
pub proof fn lemma_with_proof(bare: Seq<(Seq<char>, Json)>, sig: SpecSignature)
    requires
        forall|i: int| 0 <= i < bare.len() ==> (#[trigger] bare[i]).0 != "proof"@,
        crate::signature::spec_signature_round_trips(sig),
    ensures
        spec_carried(spec_with_proof(Json::Object(bare), sig)) == Some(sig),
        spec_bare(spec_with_proof(Json::Object(bare), sig)) == Some(Json::Object(bare)),
{
    let value = spec_signature_json(sig);
    let all = bare.push(("proof"@, value));
    lemma_get_push(bare, "proof"@, value);
    lemma_signature_round_trip(sig);
    lemma_without(bare, "proof"@);
    assert(all.drop_last() =~= bare);
}

/// The view of the outcome of a signing.
pub open spec fn spec_signed_json(r: Result<Value, Error>) -> Result<Json, Error> {
    match r {
        Ok(v) => Ok(v@),
        Err(e) => Err(e),
    }
}

fn carried(payload: &Value) -> (r: Option<Signature>)
    ensures
        crate::signature::spec_opt_signature(r) == spec_carried(payload@),
{
    match payload.get("proof") {
        Some(p) => Signature::from_json(p),
        None => None,
    }
}

impl Document {
    /// The Merkle key that commits to the public keys of a collection: the
    /// tags of the type of its keys and of the digest, then the root of the
    /// tree over its public keys.
    pub fn encode_merkle_key(d: Digest, keys: &KeyCollection) -> (out: Vec<u8>)
        ensures
            out@ == merkle_key::spec_encode_key(
                keys.spec_type(),
                d,
                merkle::spec_tree_root(d, spec_publics(keys@)),
            ),
    {
        let root = keys.merkle_root(d);
        merkle_key::encode_key(keys.type_(), d, &root)
    }

    /// Signs `data` with the secret key at `index` of `keys`, for the
    /// verification method named `method`, and hands back `data` with the
    /// signature as its member `proof`. The signature carries the inclusion
    /// proof of the public key at `index`.
    pub fn sign_merkle_key(&self, data: &Value, keys: &KeyCollection, method: &str, index: usize) -> (r: Result<
        Value,
        Error,
    >)
        ensures
            spec_signed_json(r) == spec_sign_merkle(self@, data@, keys@, method@, index as int),
            r is Ok && keys@[index as int].0 == keys.spec_type().spec_public_of(keys@[index as int].1)
                ==> spec_verify_merkle(r->Ok_0@, keys@[index as int].0) is Ok,
            r is Ok && keys@[index as int].0 == keys.spec_type().spec_public_of(keys@[index as int].1)
                && spec_commits(self@, method@, keys.spec_type(), keys@) ==> spec_verify_merkle_full(
                self@,
                r->Ok_0@,
                keys@[index as int].0,
            ) is Ok,
    {
        let mut members: Vec<(String, Value)> = match data.without("proof") {
            Some(m) => m,
            None => return Err(Error::EncodingFailure),
        };
        let digest: Digest = {
            let found: &Method = match self.resolve(
                MethodQuery { ident: MethodIdent::Ident(method), scope: MethodScope::Any },
            ) {
                Some(m) => m,
                None => return Err(Error::UnresolvedMethod),
            };
            match merkle_key::extract_tags(found.key_data.as_slice()) {
                Ok((_, d)) => d,
                Err(e) => return Err(e),
            }
        };
        let secret: &[u8] = match keys.secret(index) {
            Some(s) => s,
            None => return Err(Error::InvalidSecretIndex),
        };
        let inclusion: merkle::Proof = match keys.merkle_proof(digest, index) {
            Some(p) => p,
            None => return Err(Error::InvalidPublicProof),
        };
        let ghost bare_entries = spec_entry_views(members@);
        let bare: Value = Value::Object(members);
        let plain: Signature = match sign_value(&bare, method, secret) {
            Ok(s) => s,
            Err(e) => return Err(e),
        };
        let signature: Signature = Signature {
            type_: copy_str("MerkleKeySignature2021"),
            verification_method: plain.verification_method,
            proof_purpose: plain.proof_purpose,
            value: plain.value,
            merkle: Some(MerkleData { digest, proof: inclusion.encode() }),
        };
        let mut members: Vec<(String, Value)> = match bare {
            Value::Object(m) => m,
            _ => return Err(Error::EncodingFailure),
        };
        members.push((copy_str("proof"), signature.to_json()));
        let ghost nodes = inclusion@;
        proof {
            assert(spec_entry_views(members@) =~= bare_entries.push(
                ("proof"@, spec_signature_json(signature@)),
            ));
            lemma_without(data@->Object_0, "proof"@);
            lemma_with_proof(bare_entries, signature@);
            merkle::lemma_decode_encode(digest, nodes);
            merkle::lemma_tree_proof_verifies(digest, spec_publics(keys@), index as int);
            merkle_key::lemma_extract_root_of_encoded(
                keys.spec_type(),
                digest,
                merkle::spec_tree_root(digest, spec_publics(keys@)),
            );
            assert(spec_publics(keys@)[index as int] == keys@[index as int].0);
        }
        Ok(Value::Object(members))
    }

    /// Checks the raw signature that `data` carries under the public key
    /// `target`. The key is taken on trust: that it is one of the keys the
    /// document commits to is what `verify_merkle_key_with_proof` checks.
    pub fn verify_merkle_key(&self, data: &Value, target: &[u8]) -> (r: Result<(), Error>)
        ensures
            r == spec_verify_merkle(data@, target@),
    {
        let members: Vec<(String, Value)> = match data.without("proof") {
            Some(m) => m,
            None => return Err(Error::EncodingFailure),
        };
        let signature: Signature = match carried(data) {
            Some(s) => s,
            None => return Err(Error::InvalidSignature),
        };
        let bare: Value = Value::Object(members);
        verify_value(&bare, signature.value.as_slice(), target)
    }

    /// Checks the raw signature that `data` carries under the public key
    /// `target`, and then that `target` is a leaf of the tree whose root the
    /// method named by the signature holds.
    pub fn verify_merkle_key_with_proof(&self, data: &Value, target: &[u8]) -> (r: Result<(), Error>)
        ensures
            r == spec_verify_merkle_full(self@, data@, target@),
    {
        match self.verify_merkle_key(data, target) {
            Err(e) => return Err(e),
            Ok(_) => {},
        }
        let signature: Signature = match carried(data) {
            Some(s) => s,
            None => return Err(Error::InvalidSignature),
        };
        let part: &MerkleData = match signature.merkle.as_ref() {
            Some(m) => m,
            None => return Err(Error::InvalidPublicProof),
        };
        let found: &Method = match self.resolve(
            MethodQuery {
                ident: MethodIdent::Ident(signature.verification_method.as_str()),
                scope: MethodScope::Any,
            },
        ) {
            Some(m) => m,
            None => return Err(Error::UnresolvedMethod),
        };
        let digest: Digest = match merkle_key::extract_tags(found.key_data.as_slice()) {
            Ok((_, d)) => d,
            Err(e) => return Err(e),
        };
        let root = match merkle_key::extract_root(found.key_data.as_slice()) {
            Ok(h) => h,
            Err(e) => return Err(e),
        };
        if digest != part.digest {
            return Err(Error::InvalidPublicProof);
        }
        let inclusion: merkle::Proof = match merkle::Proof::decode(digest, part.proof.as_slice()) {
            Some(p) => p,
            None => return Err(Error::MalformedProof),
        };
        let leaf = merkle::leaf_hash(digest, target);
        if inclusion.verify(digest, &leaf, &root) {
            Ok(())
        } else {
            Err(Error::InvalidPublicProof)
        }
    }
}

} // verus!
