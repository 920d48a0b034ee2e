use identity::base58::encode_b58;
use identity::digest::Digest;
use identity::document::Document;
use identity::error::Error;
use identity::jcs::to_jcs;
use identity::json::Value;
use identity::key::KeyPair;
use identity::key::KeyType;
use identity::key_collection::KeyCollection;
use identity::merkle_key::extract_root;
use identity::merkle_key::extract_tags;
use identity::method::Method;
use identity::method::MethodScope;
use identity::method::MethodType;
use identity::signature::sign_value;
use identity::signature::verify_value;
use identity::signature::MerkleData;
use identity::signature::SetSignature;
use identity::signature::Signature;
use identity::signature::TrySignature;
use identity::signature::TrySignatureMut;

const DID: &str = "did:example:123";

fn unhex(s: &str) -> Vec<u8> {
    (0..s.len() / 2).map(|i| u8::from_str_radix(&s[2 * i..2 * i + 2], 16).unwrap()).collect()
}

fn obj(members: Vec<(&str, Value)>) -> Value {
    Value::Object(members.into_iter().map(|(k, v)| (k.to_string(), v)).collect())
}

fn key(seed: u8) -> KeyPair {
    KeyPair::from_secret(KeyType::Ed25519, vec![seed; 32]).unwrap()
}

fn auth_doc(pair: &KeyPair) -> Document {
    let m = Method::new(
        "did:example:123#key-1",
        DID,
        MethodType::Ed25519VerificationKey2018,
        pair.public(),
    );
    Document::from_auth(m).unwrap()
}

fn payload() -> Value {
    obj(vec![
        ("name", Value::text("Alice")),
        ("degree", obj(vec![("level", Value::Number(3)), ("kind", Value::text("BSc"))])),
        ("tags", Value::Array(vec![Value::text("a"), Value::text("b")])),
    ])
}

fn merkle_setup() -> (Document, KeyCollection) {
    let keys = KeyCollection::from_secrets(
        KeyType::Ed25519,
        vec![vec![11u8; 32], vec![12u8; 32], vec![13u8; 32], vec![14u8; 32]],
    )
    .unwrap();
    let data = Document::encode_merkle_key(Digest::Sha256, &keys);
    let m = Method::new("did:example:123#merkle", DID, MethodType::MerkleKeyCollection2021, &data);
    (Document::from_auth(m).unwrap(), keys)
}

#[test]
fn ed25519_signature_of_a_known_message() {
    let secret = unhex("9d61b19deffd5a60ba844af492ec2cc44449c5697b326919703bac031cae7f60");
    let public = unhex("d75a980182b10ab7d54bfed3c964073a0ee172f3daa62325af021a68f707511a");
    let v = Value::text("x");
    let sig = sign_value(&v, "did:example:123#key-1", &secret).unwrap();
    assert_eq!(sig.type_, "JcsEd25519Signature2020");
    assert_eq!(sig.verification_method, "did:example:123#key-1");
    assert_eq!(sig.proof_purpose, None);
    assert_eq!(sig.merkle, None);
    assert_eq!(sig.value.len(), 64);
    assert_eq!(verify_value(&v, &sig.value, &public), Ok(()));
    let again = sign_value(&v, "did:example:123#key-1", &secret).unwrap();
    assert_eq!(again, sig);
}

#[test]
fn signature_is_over_the_digest_of_the_canonical_form() {
    let pair = key(5);
    let one = obj(vec![("a", Value::Number(1)), ("b", Value::Number(2))]);
    let two = obj(vec![("b", Value::Number(2)), ("a", Value::Number(1))]);
    let sig = sign_value(&one, "m", pair.secret()).unwrap();
    assert_eq!(verify_value(&two, &sig.value, pair.public()), Ok(()));
    let three = obj(vec![("a", Value::Number(1)), ("b", Value::Number(3))]);
    assert_eq!(verify_value(&three, &sig.value, pair.public()), Err(Error::InvalidSignature));
    assert_eq!(to_jcs(&one), to_jcs(&two));
}

#[test]
fn signing_failures() {
    let pair = key(5);
    let twice = obj(vec![("a", Value::Number(1)), ("a", Value::Number(2))]);
    assert_eq!(sign_value(&twice, "m", pair.secret()), Err(Error::EncodingFailure));
    assert_eq!(sign_value(&twice, "m", &[1, 2, 3]), Err(Error::EncodingFailure));
    assert_eq!(sign_value(&payload(), "m", &[1, 2, 3]), Err(Error::MalformedKey));
    assert_eq!(verify_value(&twice, &[0u8; 64], pair.public()), Err(Error::EncodingFailure));
}

#[test]
fn verification_failures() {
    let pair = key(5);
    let other = key(6);
    let sig = sign_value(&payload(), "m", pair.secret()).unwrap();
    assert_eq!(verify_value(&payload(), &sig.value, pair.public()), Ok(()));
    assert_eq!(verify_value(&payload(), &sig.value, other.public()), Err(Error::InvalidSignature));
    let mut flipped = sig.value.clone();
    flipped[10] ^= 1;
    assert_eq!(verify_value(&payload(), &flipped, pair.public()), Err(Error::InvalidSignature));
    assert_eq!(verify_value(&payload(), &sig.value[..63], pair.public()), Err(Error::InvalidSignature));
    assert_eq!(verify_value(&payload(), &sig.value, &pair.public()[..31]), Err(Error::InvalidSignature));
    assert_eq!(verify_value(&payload(), &[], &[]), Err(Error::InvalidSignature));
}

#[test]
fn signature_json_round_trip() {
    let plain = Signature {
        type_: "JcsEd25519Signature2020".to_string(),
        verification_method: "#key-1".to_string(),
        proof_purpose: None,
        value: b"hello world".to_vec(),
        merkle: None,
    };
    let expected = obj(vec![
        ("type", Value::text("JcsEd25519Signature2020")),
        ("verificationMethod", Value::text("#key-1")),
        ("proofValue", Value::text("StV1DL6CwTryKyV")),
    ]);
    assert_eq!(plain.to_json(), expected);
    assert_eq!(Signature::from_json(&expected), Some(plain.copy()));

    let full = Signature {
        type_: "MerkleKeySignature2021".to_string(),
        verification_method: "#merkle".to_string(),
        proof_purpose: Some("Authentication".to_string()),
        value: vec![0, 0, 1, 2, 3],
        merkle: Some(MerkleData { digest: Digest::Sha256, proof: b"hello world".to_vec() }),
    };
    let expected = obj(vec![
        ("type", Value::text("MerkleKeySignature2021")),
        ("verificationMethod", Value::text("#merkle")),
        ("proofPurpose", Value::text("Authentication")),
        ("proofValue", Value::text("11Ldp")),
        ("merkleDigest", Value::Number(0)),
        ("merkleProof", Value::text("StV1DL6CwTryKyV")),
    ]);
    assert_eq!(full.to_json(), expected);
    assert_eq!(Signature::from_json(&expected), Some(full));
}

#[test]
fn signature_json_of_wrong_shape_is_refused() {
    let good = obj(vec![
        ("type", Value::text("T")),
        ("verificationMethod", Value::text("#k")),
        ("proofValue", Value::text("11Ldp")),
    ]);
    assert!(Signature::from_json(&good).is_some());
    assert!(Signature::from_json(&Value::Null).is_none());
    let missing = obj(vec![("type", Value::text("T")), ("proofValue", Value::text("11Ldp"))]);
    assert!(Signature::from_json(&missing).is_none());
    let not_b58 = obj(vec![
        ("type", Value::text("T")),
        ("verificationMethod", Value::text("#k")),
        ("proofValue", Value::text("0OIl")),
    ]);
    assert!(Signature::from_json(&not_b58).is_none());
    let purpose_number = obj(vec![
        ("type", Value::text("T")),
        ("verificationMethod", Value::text("#k")),
        ("proofValue", Value::text("11Ldp")),
        ("proofPurpose", Value::Number(1)),
    ]);
    assert!(Signature::from_json(&purpose_number).is_none());
    let half_merkle = obj(vec![
        ("type", Value::text("T")),
        ("verificationMethod", Value::text("#k")),
        ("proofValue", Value::text("11Ldp")),
        ("merkleDigest", Value::Number(0)),
    ]);
    assert!(Signature::from_json(&half_merkle).is_none());
    let unknown_digest = obj(vec![
        ("type", Value::text("T")),
        ("verificationMethod", Value::text("#k")),
        ("proofValue", Value::text("11Ldp")),
        ("merkleDigest", Value::Number(9)),
        ("merkleProof", Value::text("11Ldp")),
    ]);
    assert!(Signature::from_json(&unknown_digest).is_none());
    let out_of_range = obj(vec![
        ("type", Value::text("T")),
        ("verificationMethod", Value::text("#k")),
        ("proofValue", Value::text("11Ldp")),
        ("merkleDigest", Value::Number(256)),
        ("merkleProof", Value::text("11Ldp")),
    ]);
    assert!(Signature::from_json(&out_of_range).is_none());
}

#[test]
fn document_signs_and_verifies() {
    let pair = key(7);
    let mut doc = auth_doc(&pair);
    assert_eq!(doc.verify(), Err(Error::InvalidSignature));
    assert_eq!(doc.sign(pair.secret()), Ok(()));
    let sig = doc.signature().unwrap().copy();
    assert_eq!(sig.verification_method, "did:example:123#key-1");
    assert_eq!(sig.type_, "JcsEd25519Signature2020");
    assert_eq!(doc.verify(), Ok(()));
    assert_eq!(verify_value(&doc.signable_json(), &sig.value, pair.public()), Ok(()));
    assert_eq!(doc.to_json().get("proof"), Some(&sig.to_json()));
    assert_eq!(doc.signable_json().get("proof"), None);
}

#[test]
fn document_signed_with_a_foreign_key_does_not_verify() {
    let pair = key(7);
    let other = key(8);
    let mut doc = auth_doc(&pair);
    assert_eq!(doc.sign(other.secret()), Ok(()));
    assert_eq!(doc.verify(), Err(Error::InvalidSignature));
}

#[test]
fn document_changed_after_signing_does_not_verify() {
    let pair = key(7);
    let mut doc = auth_doc(&pair);
    doc.sign(pair.secret()).unwrap();
    let extra = Method::new("did:example:123#extra", DID, MethodType::Ed25519VerificationKey2018, &[1; 32]);
    doc.update_key_agreement(&extra).unwrap();
    assert_eq!(doc.verify(), Err(Error::InvalidSignature));
    doc.clear_key_agreement().unwrap();
    assert_eq!(doc.verify(), Ok(()));
}

#[test]
fn document_sign_failures_leave_it_unsigned() {
    let pair = key(7);
    let mut doc = auth_doc(&pair);
    assert_eq!(doc.sign(&[1, 2, 3]), Err(Error::MalformedKey));
    assert!(doc.signature().is_none());
    doc.clear_authentication().unwrap();
    assert_eq!(doc.sign(pair.secret()), Err(Error::UnresolvedMethod));
    assert!(doc.signature().is_none());
}

#[test]
fn document_with_a_signature_that_names_no_method() {
    let pair = key(7);
    let mut doc = auth_doc(&pair);
    let sig = sign_value(&doc.signable_json(), "did:example:123#other", pair.secret()).unwrap();
    doc.set_signature(sig);
    assert_eq!(doc.verify(), Err(Error::UnresolvedMethod));
    let sig = sign_value(&doc.signable_json(), "#key-1", pair.secret()).unwrap();
    doc.set_signature(sig);
    assert_eq!(doc.verify(), Ok(()));
}

#[test]
fn document_signature_can_be_changed_in_place() {
    let pair = key(7);
    let mut doc = auth_doc(&pair);
    assert!(doc.signature_mut().is_none());
    doc.sign(pair.secret()).unwrap();
    assert_eq!(doc.verify(), Ok(()));
    doc.signature_mut().unwrap().value[0] ^= 1;
    assert_eq!(doc.verify(), Err(Error::InvalidSignature));
    doc.signature_mut().unwrap().value[0] ^= 1;
    assert_eq!(doc.verify(), Ok(()));
    assert_eq!(doc.parts().authentication.len(), 1);
}

#[test]
fn document_json_has_every_list() {
    let pair = key(7);
    let doc = auth_doc(&pair);
    let m = obj(vec![
        ("id", Value::text("did:example:123#key-1")),
        ("controller", Value::text(DID)),
        ("type", Value::text("Ed25519VerificationKey2018")),
        ("publicKeyBase58", Value::Text(encode_b58(pair.public()))),
    ]);
    let expected = obj(vec![
        ("id", Value::text(DID)),
        ("verificationMethod", Value::Array(vec![])),
        ("authentication", Value::Array(vec![m])),
        ("assertionMethod", Value::Array(vec![])),
        ("keyAgreement", Value::Array(vec![])),
        ("capabilityDelegation", Value::Array(vec![])),
        ("capabilityInvocation", Value::Array(vec![])),
        ("service", Value::Array(vec![])),
    ]);
    assert_eq!(doc.to_json(), expected);
    assert_eq!(doc.signable_json(), expected);
    assert!(to_jcs(&doc.to_json()).is_ok());
}

#[test]
fn merkle_key_of_a_collection() {
    let (doc, keys) = merkle_setup();
    let data = Document::encode_merkle_key(Digest::Sha256, &keys);
    assert_eq!(data.len(), 34);
    assert_eq!(extract_tags(&data), Ok((KeyType::Ed25519, Digest::Sha256)));
    assert_eq!(extract_root(&data), Ok(keys.merkle_root(Digest::Sha256)));
    assert_eq!(doc.resolve_key("#merkle".into(), None).unwrap().key_data, data);
}

#[test]
fn merkle_signature_end_to_end() {
    let (doc, keys) = merkle_setup();
    let signed = doc.sign_merkle_key(&payload(), &keys, "#merkle", 2).unwrap();
    assert_eq!(doc.verify_merkle_key(&signed, keys.public(2).unwrap()), Ok(()));
    assert_eq!(doc.verify_merkle_key(&signed, keys.public(0).unwrap()), Err(Error::InvalidSignature));
    assert_eq!(doc.verify_merkle_key_with_proof(&signed, keys.public(2).unwrap()), Ok(()));
    assert_eq!(
        doc.verify_merkle_key_with_proof(&signed, keys.public(0).unwrap()),
        Err(Error::InvalidSignature)
    );
}

#[test]
fn merkle_signature_carries_the_proof() {
    let (doc, keys) = merkle_setup();
    let signed = doc.sign_merkle_key(&payload(), &keys, "#merkle", 2).unwrap();
    assert_eq!(signed.without("proof").map(Value::Object), Some(payload()));
    let sig = Signature::from_json(signed.get("proof").unwrap()).unwrap();
    assert_eq!(sig.type_, "MerkleKeySignature2021");
    assert_eq!(sig.verification_method, "#merkle");
    assert_eq!(sig.proof_purpose, None);
    assert_eq!(
        sig.merkle,
        Some(MerkleData {
            digest: Digest::Sha256,
            proof: keys.merkle_proof(Digest::Sha256, 2).unwrap().encode(),
        })
    );
    assert_eq!(verify_value(&payload(), &sig.value, keys.public(2).unwrap()), Ok(()));
    let plain = sign_value(&payload(), "#merkle", keys.secret(2).unwrap()).unwrap();
    assert_eq!(sig.value, plain.value);
}

#[test]
fn merkle_signing_for_every_index() {
    let (doc, keys) = merkle_setup();
    for i in 0..4 {
        let signed = doc.sign_merkle_key(&payload(), &keys, "did:example:123#merkle", i).unwrap();
        for j in 0..4 {
            let r = doc.verify_merkle_key_with_proof(&signed, keys.public(j).unwrap());
            if i == j {
                assert_eq!(r, Ok(()));
            } else {
                assert_eq!(r, Err(Error::InvalidSignature));
            }
        }
    }
}

#[test]
fn merkle_signing_replaces_an_earlier_proof() {
    let (doc, keys) = merkle_setup();
    let once = doc.sign_merkle_key(&payload(), &keys, "#merkle", 1).unwrap();
    let twice = doc.sign_merkle_key(&once, &keys, "#merkle", 1).unwrap();
    assert_eq!(twice, once);
    let other = doc.sign_merkle_key(&once, &keys, "#merkle", 3).unwrap();
    assert_eq!(doc.verify_merkle_key(&other, keys.public(3).unwrap()), Ok(()));
    assert_eq!(doc.verify_merkle_key(&other, keys.public(1).unwrap()), Err(Error::InvalidSignature));
}

#[test]
fn merkle_signing_failures() {
    let (doc, keys) = merkle_setup();
    assert_eq!(doc.sign_merkle_key(&payload(), &keys, "#merkle", 4), Err(Error::InvalidSecretIndex));
    assert_eq!(doc.sign_merkle_key(&payload(), &keys, "#merkle", usize::MAX), Err(Error::InvalidSecretIndex));
    assert_eq!(doc.sign_merkle_key(&payload(), &keys, "#nope", 0), Err(Error::UnresolvedMethod));
    assert_eq!(doc.sign_merkle_key(&Value::Number(1), &keys, "#merkle", 0), Err(Error::EncodingFailure));
    let twice = obj(vec![("a", Value::Number(1)), ("a", Value::Number(2))]);
    assert_eq!(doc.sign_merkle_key(&twice, &keys, "#merkle", 0), Err(Error::EncodingFailure));

    let plain = auth_doc(&key(7));
    assert_eq!(plain.sign_merkle_key(&payload(), &keys, "#key-1", 0), Err(Error::UnsupportedAlgorithm));
    let short = Method::new("did:example:123#short", DID, MethodType::MerkleKeyCollection2021, &[0]);
    let short_doc = Document::from_auth(short).unwrap();
    assert_eq!(short_doc.sign_merkle_key(&payload(), &keys, "#short", 0), Err(Error::MalformedKey));
}

#[test]
fn merkle_method_is_found_in_any_list() {
    let keys = KeyCollection::from_secrets(KeyType::Ed25519, vec![vec![1u8; 32], vec![2u8; 32]]).unwrap();
    let data = Document::encode_merkle_key(Digest::Sha256, &keys);
    let m = Method::new("did:example:123#merkle", DID, MethodType::MerkleKeyCollection2021, &data);
    let mut doc = auth_doc(&key(7));
    doc.update(MethodScope::AssertionMethod, &m).unwrap();
    let signed = doc.sign_merkle_key(&payload(), &keys, "#merkle", 1).unwrap();
    assert_eq!(doc.verify_merkle_key_with_proof(&signed, keys.public(1).unwrap()), Ok(()));
}

#[test]
fn merkle_verification_failures() {
    let (doc, keys) = merkle_setup();
    let target = keys.public(2).unwrap();
    assert_eq!(doc.verify_merkle_key(&Value::Null, target), Err(Error::EncodingFailure));
    assert_eq!(doc.verify_merkle_key(&payload(), target), Err(Error::InvalidSignature));
    let signed = doc.sign_merkle_key(&payload(), &keys, "#merkle", 2).unwrap();
    let mut members = signed.without("name").unwrap();
    members.push(("name".to_string(), Value::text("Mallory")));
    assert_eq!(doc.verify_merkle_key(&Value::Object(members), target), Err(Error::InvalidSignature));
}

#[test]
fn merkle_proof_is_checked_against_the_root_of_the_document() {
    let (doc, keys) = merkle_setup();
    let others = KeyCollection::from_secrets(
        KeyType::Ed25519,
        vec![vec![21u8; 32], vec![22u8; 32], vec![23u8; 32], vec![24u8; 32]],
    )
    .unwrap();
    let data = Document::encode_merkle_key(Digest::Sha256, &others);
    let m = Method::new("did:example:123#merkle", DID, MethodType::MerkleKeyCollection2021, &data);
    let other_doc = Document::from_auth(m).unwrap();
    let forged = other_doc.sign_merkle_key(&payload(), &others, "#merkle", 2).unwrap();
    let target = others.public(2).unwrap();
    assert_eq!(doc.verify_merkle_key(&forged, target), Ok(()));
    assert_eq!(doc.verify_merkle_key_with_proof(&forged, target), Err(Error::InvalidPublicProof));
    assert_eq!(other_doc.verify_merkle_key_with_proof(&forged, target), Ok(()));

    let pair = key(9);
    let plain = sign_value(&payload(), "#merkle", pair.secret()).unwrap();
    let mut members = payload().without("proof").unwrap();
    members.push(("proof".to_string(), plain.to_json()));
    let no_merkle = Value::Object(members);
    assert_eq!(doc.verify_merkle_key(&no_merkle, pair.public()), Ok(()));
    assert_eq!(doc.verify_merkle_key_with_proof(&no_merkle, pair.public()), Err(Error::InvalidPublicProof));

    let mut bad = sign_value(&payload(), "#merkle", pair.secret()).unwrap();
    bad.merkle = Some(MerkleData { digest: Digest::Sha256, proof: vec![1, 2, 3] });
    let mut members = payload().without("proof").unwrap();
    members.push(("proof".to_string(), bad.to_json()));
    assert_eq!(
        doc.verify_merkle_key_with_proof(&Value::Object(members), pair.public()),
        Err(Error::MalformedProof)
    );

    let mut unknown = sign_value(&payload(), "#gone", pair.secret()).unwrap();
    unknown.merkle = Some(MerkleData { digest: Digest::Sha256, proof: vec![] });
    let mut members = payload().without("proof").unwrap();
    members.push(("proof".to_string(), unknown.to_json()));
    assert_eq!(
        doc.verify_merkle_key_with_proof(&Value::Object(members), pair.public()),
        Err(Error::UnresolvedMethod)
    );
}
