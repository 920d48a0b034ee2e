//! Signatures over the canonical form of JSON values, and the capability of
//! carrying one.
//!
//! What is signed is the SHA-256 digest of the canonical form of a value.
//! A signature names the verification method that checks it; the variant
//! made with a key of a Merkle key collection carries, besides the raw
//! signature, the digest of the tree and the encoded inclusion proof of the
//! key that signed.

use vstd::prelude::*;
use crate::base58::decode_b58;
use crate::base58::encode_b58;
use crate::base58::spec_b58_decode;
use crate::base58::spec_b58_encode;
use crate::base58::spec_b58_round_trips;
use crate::bytes::copy_bytes;
use crate::digest::Digest;
use crate::ed25519;
use crate::error::Error;
use crate::jcs::jcs_sha256;
use crate::jcs::spec_jcs;
use crate::jcs::spec_valid;
use crate::json::Json;
use crate::json::Value;
use crate::json::lemma_get_absent;
use crate::json::lemma_get_at;
use crate::json::spec_entry_views;
use crate::json::spec_keys_distinct;
use crate::merkle_key;
use crate::text::copy_opt;
use crate::text::copy_str;
use crate::text::spec_opt;

verus! {

/// The Merkle part of a signature: the digest of the tree and the encoded
/// inclusion proof of the key that signed.
#[derive(Debug, PartialEq, Eq)]
pub struct MerkleData {
    pub digest: Digest,
    pub proof: Vec<u8>,
}

/// A signature with the name of the verification method that checks it.
#[derive(Debug, PartialEq, Eq)]
pub struct Signature {
    pub type_: String,
    pub verification_method: String,
    pub proof_purpose: Option<String>,
    pub value: Vec<u8>,
    pub merkle: Option<MerkleData>,
}

/// What a signature is, mathematically.
pub struct SpecSignature {
    pub type_: Seq<char>,
    pub verification_method: Seq<char>,
    pub proof_purpose: Option<Seq<char>>,
    pub value: Seq<u8>,
    pub merkle: Option<(Digest, Seq<u8>)>,
}

/// The view of the Merkle part of a signature.
pub open spec fn spec_merkle(m: Option<MerkleData>) -> Option<(Digest, Seq<u8>)> {
    match m {
        Some(data) => Some((data.digest, data.proof@)),
        None => None,
    }
}

impl View for Signature {
    type V = SpecSignature;

    open spec fn view(&self) -> SpecSignature {
        SpecSignature {
            type_: self.type_@,
            verification_method: self.verification_method@,
            proof_purpose: spec_opt(self.proof_purpose),
            value: self.value@,
            merkle: spec_merkle(self.merkle),
        }
    }
}

/// The view of an optional signature.
pub open spec fn spec_opt_signature(s: Option<Signature>) -> Option<SpecSignature> {
    match s {
        Some(sig) => Some(sig@),
        None => None,
    }
}

/// The type name of a plain Ed25519 signature over a canonical form.
pub open spec fn spec_plain_type() -> Seq<char> {
    "JcsEd25519Signature2020"@
}

/// The type name of a signature made with a key of a Merkle key collection.
pub open spec fn spec_merkle_type() -> Seq<char> {
    "MerkleKeySignature2021"@
}

/// The bytes that are signed for a value: the SHA-256 digest of its
/// canonical form.
pub open spec fn spec_signing_input(j: Json) -> Seq<u8> {
    Digest::Sha256.spec_hash(spec_jcs(j))
}

/// The members that a purpose adds to the JSON form of a signature.
pub open spec fn spec_purpose_members(purpose: Option<Seq<char>>) -> Seq<(Seq<char>, Json)> {
    match purpose {
        Some(p) => seq![("proofPurpose"@, Json::Text(p))],
        None => Seq::empty(),
    }
}

/// The members that a Merkle part adds to the JSON form of a signature.
pub open spec fn spec_merkle_members(merkle: Option<(Digest, Seq<u8>)>) -> Seq<(Seq<char>, Json)> {
    match merkle {
        Some((d, proof)) => seq![
            ("merkleDigest"@, Json::Number(merkle_key::spec_digest_tag(d) as int)),
            ("merkleProof"@, Json::Text(spec_b58_encode(proof))),
        ],
        None => Seq::empty(),
    }
}

/// The JSON form of a signature: `type`, `verificationMethod`, the purpose
/// where there is one, the raw signature as base58 text, and the Merkle part
/// where there is one.
pub open spec fn spec_signature_json(s: SpecSignature) -> Json {
    Json::Object(
        seq![("type"@, Json::Text(s.type_)), ("verificationMethod"@, Json::Text(s.verification_method))]
            + spec_purpose_members(s.proof_purpose) + seq![
            ("proofValue"@, Json::Text(spec_b58_encode(s.value))),
        ] + spec_merkle_members(s.merkle),
    )
}

/// The JSON form of a signature has a canonical form.
pub proof fn lemma_signature_json_valid(s: SpecSignature)
    ensures
        spec_valid(spec_signature_json(s)),
{
    reveal_strlit("type");
    reveal_strlit("verificationMethod");
    reveal_strlit("proofPurpose");
    reveal_strlit("proofValue");
    reveal_strlit("merkleDigest");
    reveal_strlit("merkleProof");
    reveal_with_fuel(spec_valid, 2);
    let entries = spec_signature_json(s)->Object_0;
    assert("type"@.len() == 4);
    assert("verificationMethod"@.len() == 18);
    assert("proofPurpose"@.len() == 12);
    assert("proofValue"@.len() == 10);
    assert("merkleDigest"@.len() == 12);
    assert("merkleProof"@.len() == 11);
    assert("proofPurpose"@[0] != "merkleDigest"@[0]);
    assert(crate::json::spec_keys_distinct(entries));
}

/// The purpose that a JSON value gives: none where it has no member
/// `proofPurpose`; `None` where that member is not text.
pub open spec fn spec_read_purpose(j: Json) -> Option<Option<Seq<char>>> {
    match j.get("proofPurpose"@) {
        None => Some(None),
        Some(Json::Text(p)) => Some(Some(p)),
        Some(_) => None,
    }
}

/// The Merkle part that a JSON value gives: none where it has neither
/// `merkleDigest` nor `merkleProof`; `None` where it has only one of them, or
/// one of them of the wrong shape, an unknown digest tag, or a proof that is
/// not base58.
pub open spec fn spec_read_merkle(j: Json) -> Option<Option<(Digest, Seq<u8>)>> {
    match (j.get("merkleDigest"@), j.get("merkleProof"@)) {
        (None, None) => Some(None),
        (Some(Json::Number(n)), Some(Json::Text(p))) => if 0 <= n <= 255 {
            match (merkle_key::spec_digest_of_tag(n as u8), spec_b58_decode(p)) {
                (Some(d), Some(proof)) => Some(Some((d, proof))),
                _ => None,
            }
        } else {
            None
        },
        _ => None,
    }
}

/// The signature that a JSON value reads as, if it reads as one.
pub open spec fn spec_signature_from_json(j: Json) -> Option<SpecSignature> {
    match (j.get("type"@), j.get("verificationMethod"@), j.get("proofValue"@)) {
        (Some(Json::Text(t)), Some(Json::Text(m)), Some(Json::Text(v))) => match (
            spec_read_purpose(j),
            spec_b58_decode(v),
            spec_read_merkle(j),
        ) {
            (Some(purpose), Some(value), Some(merkle)) => Some(
                SpecSignature { type_: t, verification_method: m, proof_purpose: purpose, value, merkle },
            ),
            _ => None,
        },
        _ => None,
    }
}

/// Whether the bytes of a signature read back from their base58 text.
pub open spec fn spec_signature_round_trips(s: SpecSignature) -> bool {
    spec_b58_round_trips(s.value) && match s.merkle {
        Some((_, encoded)) => spec_b58_round_trips(encoded),
        None => true,
    }
}

/// A signature is read back from its JSON form, where its bytes read back
/// from their base58 text.
pub proof fn lemma_signature_round_trip(s: SpecSignature)
    requires
        spec_signature_round_trips(s),
    ensures
        spec_signature_from_json(spec_signature_json(s)) == Some(s),
{
    reveal_strlit("type");
    reveal_strlit("verificationMethod");
    reveal_strlit("proofPurpose");
    reveal_strlit("proofValue");
    reveal_strlit("merkleDigest");
    reveal_strlit("merkleProof");
    assert("type"@.len() == 4);
    assert("verificationMethod"@.len() == 18);
    assert("proofPurpose"@.len() == 12);
    assert("proofValue"@.len() == 10);
    assert("merkleDigest"@.len() == 12);
    assert("merkleProof"@.len() == 11);
    assert("proofPurpose"@[0] != "merkleDigest"@[0]);
    lemma_signature_json_valid(s);
    let j = spec_signature_json(s);
    let entries = j->Object_0;
    assert(spec_keys_distinct(entries));
    lemma_get_at(entries, 0);
    lemma_get_at(entries, 1);
    let at_value: int = if s.proof_purpose is Some {
        3
    } else {
        2
    };
    lemma_get_at(entries, at_value);
    assert(entries[at_value].0 == "proofValue"@);
    if s.proof_purpose is Some {
        lemma_get_at(entries, 2);
        assert(entries[2].0 == "proofPurpose"@);
    } else {
        lemma_get_absent(entries, "proofPurpose"@);
    }
    if s.merkle is Some {
        lemma_get_at(entries, at_value + 1);
        lemma_get_at(entries, at_value + 2);
        assert(entries[at_value + 1].0 == "merkleDigest"@);
        assert(entries[at_value + 2].0 == "merkleProof"@);
    } else {
        lemma_get_absent(entries, "merkleDigest"@);
        lemma_get_absent(entries, "merkleProof"@);
    }
}

fn read_purpose(value: &Value) -> (r: Option<Option<String>>)
    ensures
        r is Some <==> spec_read_purpose(value@) is Some,
        r is Some ==> spec_opt(r->0) == spec_read_purpose(value@)->0,
{
    match value.get("proofPurpose") {
        None => Some(None),
        Some(v) => match v.as_text() {
            Some(p) => Some(Some(copy_str(p))),
            None => None,
        },
    }
}

fn read_merkle(value: &Value) -> (r: Option<Option<MerkleData>>)
    ensures
        r is Some <==> spec_read_merkle(value@) is Some,
        r is Some ==> spec_merkle(r->0) == spec_read_merkle(value@)->0,
{
    let tag: Option<&Value> = value.get("merkleDigest");
    let proof: Option<&Value> = value.get("merkleProof");
    match (tag, proof) {
        (None, None) => Some(None),
        (Some(Value::Number(n)), Some(Value::Text(p))) => {
            if *n < 0 || *n > 255 {
                return None;
            }
            if *n != merkle_key::TAG_SHA256 as i64 {
                return None;
            }
            match decode_b58(p.as_str()) {
                Ok(proof) => Some(Some(MerkleData { digest: Digest::Sha256, proof })),
                Err(_) => None,
            }
        },
        _ => None,
    }
}

impl Signature {
    /// A copy of the signature.
    pub fn copy(&self) -> (s: Signature)
        ensures
            s@ == self@,
    {
        Signature {
            type_: copy_str(self.type_.as_str()),
            verification_method: copy_str(self.verification_method.as_str()),
            proof_purpose: copy_opt(&self.proof_purpose),
            value: copy_bytes(self.value.as_slice()),
            merkle: match &self.merkle {
                Some(m) => Some(MerkleData { digest: m.digest, proof: copy_bytes(m.proof.as_slice()) }),
                None => None,
            },
        }
    }

    /// The JSON form of the signature.
    pub fn to_json(&self) -> (value: Value)
        ensures
            value@ == spec_signature_json(self@),
            spec_signature_round_trips(self@),
    {
        let mut members: Vec<(String, Value)> = Vec::new();
        members.push((copy_str("type"), Value::text(self.type_.as_str())));
        members.push((copy_str("verificationMethod"), Value::text(self.verification_method.as_str())));
        match &self.proof_purpose {
            Some(p) => {
                members.push((copy_str("proofPurpose"), Value::text(p.as_str())));
            },
            None => {},
        }
        members.push((copy_str("proofValue"), Value::Text(encode_b58(self.value.as_slice()))));
        match &self.merkle {
            Some(m) => {
                let tag: u8 = merkle_key::digest_tag(m.digest);
                members.push((copy_str("merkleDigest"), Value::Number(tag as i64)));
                members.push((copy_str("merkleProof"), Value::Text(encode_b58(m.proof.as_slice()))));
            },
            None => {},
        }
        proof {
            assert(spec_entry_views(members@) =~= spec_signature_json(self@)->Object_0);
        }
        Value::Object(members)
    }

    /// Reads a signature from its JSON form; none where the value does not
    /// have that form.
    pub fn from_json(value: &Value) -> (r: Option<Signature>)
        ensures
            spec_opt_signature(r) == spec_signature_from_json(value@),
    {
        let type_: &str = match value.get("type") {
            Some(v) => match v.as_text() {
                Some(s) => s,
                None => return None,
            },
            None => return None,
        };
        let method: &str = match value.get("verificationMethod") {
            Some(v) => match v.as_text() {
                Some(s) => s,
                None => return None,
            },
            None => return None,
        };
        let text: &str = match value.get("proofValue") {
            Some(v) => match v.as_text() {
                Some(s) => s,
                None => return None,
            },
            None => return None,
        };
        let purpose: Option<String> = match read_purpose(value) {
            Some(p) => p,
            None => return None,
        };
        let raw: Vec<u8> = match decode_b58(text) {
            Ok(bytes) => bytes,
            Err(_) => return None,
        };
        let merkle: Option<MerkleData> = match read_merkle(value) {
            Some(m) => m,
            None => return None,
        };
        Some(
            Signature {
                type_: copy_str(type_),
                verification_method: copy_str(method),
                proof_purpose: purpose,
                value: raw,
                merkle,
            },
        )
    }
}

/// What signing a value for a verification method yields: an encoding
/// failure where the value has no canonical form, a malformed key where the
/// secret key does not have 32 bytes, else the plain signature.
pub open spec fn spec_sign_value(j: Json, method: Seq<char>, secret: Seq<u8>) -> Result<SpecSignature, Error> {
    if !spec_valid(j) {
        Err(Error::EncodingFailure)
    } else if secret.len() != 32 {
        Err(Error::MalformedKey)
    } else {
        Ok(
            SpecSignature {
                type_: spec_plain_type(),
                verification_method: method,
                proof_purpose: None,
                value: ed25519::spec_ed25519_sign(secret, spec_signing_input(j)),
                merkle: None,
            },
        )
    }
}

/// What checking a raw signature of a value yields: an encoding failure
/// where the value has no canonical form, an invalid signature where the
/// signature does not verify under the public key.
pub open spec fn spec_verify_value(j: Json, signature: Seq<u8>, public: Seq<u8>) -> Result<(), Error> {
    if !spec_valid(j) {
        Err(Error::EncodingFailure)
    } else if !ed25519::spec_ed25519_verify(public, spec_signing_input(j), signature) {
        Err(Error::InvalidSignature)
    } else {
        Ok(())
    }
}

/// The view of the outcome of a signing.
pub open spec fn spec_signed(r: Result<Signature, Error>) -> Result<SpecSignature, Error> {
    match r {
        Ok(s) => Ok(s@),
        Err(e) => Err(e),
    }
}

/// Signs the digest of the canonical form of `payload` with an Ed25519
/// secret key, for the verification method named `method`. The signature
/// verifies under the public key that belongs to the secret key.
pub fn sign_value(payload: &Value, method: &str, secret: &[u8]) -> (r: Result<Signature, Error>)
    ensures
        spec_signed(r) == spec_sign_value(payload@, method@, secret@),
        r is Ok ==> spec_verify_value(
            payload@,
            r->Ok_0@.value,
            ed25519::spec_ed25519_public(secret@),
        ) is Ok,
{
    let input = match jcs_sha256(payload) {
        Ok(hash) => hash,
        Err(_) => return Err(Error::EncodingFailure),
    };
    if secret.len() != 32 {
        return Err(Error::MalformedKey);
    }
    let value: Vec<u8> = ed25519::ed25519_sign(secret, input.as_slice());
    Ok(
        Signature {
            type_: copy_str("JcsEd25519Signature2020"),
            verification_method: copy_str(method),
            proof_purpose: None,
            value,
            merkle: None,
        },
    )
}

/// Checks a raw signature of the digest of the canonical form of `payload`
/// under an Ed25519 public key.
pub fn verify_value(payload: &Value, signature: &[u8], public: &[u8]) -> (r: Result<(), Error>)
    ensures
        r == spec_verify_value(payload@, signature@, public@),
{
    let input = match jcs_sha256(payload) {
        Ok(hash) => hash,
        Err(_) => return Err(Error::EncodingFailure),
    };
    if ed25519::ed25519_verify(public, input.as_slice(), signature) {
        Ok(())
    } else {
        Err(Error::InvalidSignature)
    }
}

/// The capability of showing the signature one carries.
pub trait TrySignature {
    /// The signature carried, if any.
    spec fn spec_signature(&self) -> Option<SpecSignature>;

    /// The signature carried, if any.
    fn signature(&self) -> (s: Option<&Signature>)
        ensures
            s is Some <==> self.spec_signature() is Some,
            s is Some ==> s->0@ == self.spec_signature()->0,
    ;
}

/// The capability of handing out the signature one carries for change.
pub trait TrySignatureMut: TrySignature {
    /// The signature carried, if any, for change in place.
    fn signature_mut(&mut self) -> (s: Option<&mut Signature>)
        ensures
            s is Some <==> old(self).spec_signature() is Some,
            s is Some ==> (*s->0)@ == old(self).spec_signature()->0,
            s is Some ==> final(self).spec_signature() == Some((*final(s->0))@),
            s is None ==> final(self).spec_signature() is None,
    ;
}

/// The capability of taking a signature.
pub trait SetSignature: TrySignature {
    /// Puts `value` in the place of whatever signature was carried.
    fn set_signature(&mut self, value: Signature)
        ensures
            final(self).spec_signature() == Some(value@),
    ;
}

} // verus!
