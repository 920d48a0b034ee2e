use identity::diff::Change;
use identity::diff::DocumentDiff;
use identity::document::Document;
use identity::document::DocumentParts;
use identity::error::Error;
use identity::json::Value;
use identity::key::KeyPair;
use identity::key::KeyType;
use identity::method::Method;
use identity::method::MethodRef;
use identity::method::MethodType;
use identity::method::Service;
use identity::signature::TrySignature;

const DID: &str = "did:example:123";

fn obj(members: Vec<(&str, Value)>) -> Value {
    Value::Object(members.into_iter().map(|(k, v)| (k.to_string(), v)).collect())
}

fn with(value: &Value, key: &str, new: Value) -> Value {
    let mut members = value.without(key).unwrap();
    members.push((key.to_string(), new));
    Value::Object(members)
}

fn key(seed: u8) -> KeyPair {
    KeyPair::from_secret(KeyType::Ed25519, vec![seed; 32]).unwrap()
}

fn method(fragment: &str, key: u8) -> Method {
    Method::new(&format!("{}#{}", DID, fragment), DID, MethodType::Ed25519VerificationKey2018, &[key; 32])
}

fn full_document(pair: &KeyPair) -> Document {
    let mut parts = DocumentParts::new(DID);
    parts.verification_method.push(method("gen-1", 1));
    parts.verification_method.push(Method::new(
        "did:example:123#merkle",
        DID,
        MethodType::MerkleKeyCollection2021,
        &[0u8; 34],
    ));
    parts.authentication.push(MethodRef::Embed(Method::new(
        "did:example:123#key-1",
        DID,
        MethodType::Ed25519VerificationKey2018,
        pair.public(),
    )));
    parts.authentication.push(MethodRef::Refer("did:example:123#gen-1".to_string()));
    parts.assertion_method.push(MethodRef::Embed(method("assert", 2)));
    parts.key_agreement.push(MethodRef::Refer("did:example:123#gen-1".to_string()));
    parts.capability_delegation.push(MethodRef::Embed(method("del", 3)));
    parts.capability_invocation.push(MethodRef::Embed(method("inv", 4)));
    parts.service.push(Service::new("did:example:123#s", "Hub", "https://hub.example"));
    Document::build(parts).unwrap()
}

fn same_parts(a: &Document, b: &Document) {
    let x = a.parts();
    let y = b.parts();
    assert_eq!(x.id, y.id);
    assert_eq!(x.verification_method, y.verification_method);
    assert_eq!(x.authentication, y.authentication);
    assert_eq!(x.assertion_method, y.assertion_method);
    assert_eq!(x.key_agreement, y.key_agreement);
    assert_eq!(x.capability_delegation, y.capability_delegation);
    assert_eq!(x.capability_invocation, y.capability_invocation);
    assert_eq!(x.service, y.service);
    assert_eq!(x.proof, y.proof);
}

#[test]
fn method_json_round_trip() {
    let m = method("k", 7);
    assert_eq!(Method::from_json(&m.to_json()), Some(m.copy()));
    let merkle = Method::new("did:x#m", "did:x", MethodType::MerkleKeyCollection2021, &[0, 0, 9]);
    assert_eq!(Method::from_json(&merkle.to_json()), Some(merkle));
    let json = m.to_json();
    assert_eq!(Method::from_json(&with(&json, "type", Value::text("Unknown"))), None);
    assert_eq!(Method::from_json(&with(&json, "publicKeyBase58", Value::text("0OIl"))), None);
    assert_eq!(Method::from_json(&with(&json, "id", Value::Number(1))), None);
    assert_eq!(Method::from_json(&Value::Object(json.without("controller").unwrap())), None);
    assert_eq!(Method::from_json(&Value::text("did:x#m")), None);
}

#[test]
fn entry_json_round_trip() {
    let own = MethodRef::Embed(method("k", 7));
    assert_eq!(MethodRef::from_json(&own.to_json()), Some(own.copy()));
    let refer = MethodRef::Refer("did:example:123#k".to_string());
    assert_eq!(refer.to_json(), Value::text("did:example:123#k"));
    assert_eq!(MethodRef::from_json(&refer.to_json()), Some(refer.copy()));
    assert_eq!(refer.id(), "did:example:123#k");
    assert_eq!(own.id(), "did:example:123#k");
    assert_eq!(MethodRef::from_json(&Value::Number(1)), None);
    assert_eq!(MethodRef::from_json(&obj(vec![])), None);
}

#[test]
fn service_json_round_trip() {
    let s = Service::new("did:example:123#s", "Hub", "https://hub.example");
    let json = obj(vec![
        ("id", Value::text("did:example:123#s")),
        ("type", Value::text("Hub")),
        ("serviceEndpoint", Value::text("https://hub.example")),
    ]);
    assert_eq!(s.to_json(), json);
    assert_eq!(Service::from_json(&json), Some(s.copy()));
    assert_eq!(Service::from_json(&Value::Object(json.without("type").unwrap())), None);
    assert_eq!(Service::from_json(&Value::Null), None);
}

#[test]
fn document_json_round_trip() {
    let pair = key(5);
    let mut doc = full_document(&pair);
    let back = Document::from_json(&doc.to_json()).unwrap();
    same_parts(&back, &doc);
    assert_eq!(back.to_json(), doc.to_json());
    doc.sign(pair.secret()).unwrap();
    let signed = Document::from_json(&doc.to_json()).unwrap();
    same_parts(&signed, &doc);
    assert_eq!(signed.signature(), doc.signature());
    assert_eq!(signed.verify(), Ok(()));
}

#[test]
fn document_json_may_leave_lists_out() {
    let json = obj(vec![("id", Value::text(DID))]);
    let doc = Document::from_json(&json).unwrap();
    assert_eq!(doc.id(), DID);
    let parts = doc.parts();
    assert!(parts.verification_method.is_empty());
    assert!(parts.authentication.is_empty());
    assert!(parts.service.is_empty());
    assert!(parts.proof.is_none());
    let some = obj(vec![
        ("authentication", Value::Array(vec![method("k", 1).to_json()])),
        ("id", Value::text(DID)),
    ]);
    let doc = Document::from_json(&some).unwrap();
    assert_eq!(doc.parts().authentication, vec![MethodRef::Embed(method("k", 1))]);
}

#[test]
fn document_json_of_wrong_shape_is_refused() {
    let pair = key(5);
    let json = full_document(&pair).to_json();
    assert!(matches!(Document::from_json(&Value::Null), Err(Error::EncodingFailure)));
    assert!(matches!(Document::from_json(&obj(vec![])), Err(Error::EncodingFailure)));
    assert!(matches!(
        Document::from_json(&with(&json, "authentication", Value::text("x"))),
        Err(Error::EncodingFailure)
    ));
    assert!(matches!(
        Document::from_json(&with(&json, "service", Value::Array(vec![Value::Null]))),
        Err(Error::EncodingFailure)
    ));
    assert!(matches!(
        Document::from_json(&with(&json, "verificationMethod", Value::Array(vec![Value::text("did:x#a")]))),
        Err(Error::EncodingFailure)
    ));
    assert!(matches!(
        Document::from_json(&with(&json, "proof", Value::text("x"))),
        Err(Error::EncodingFailure)
    ));
    assert!(matches!(Document::from_json(&with(&json, "id", Value::Number(1))), Err(Error::EncodingFailure)));
}

#[test]
fn document_json_of_an_invalid_document_is_refused() {
    let pair = key(5);
    let json = full_document(&pair).to_json();
    let dangling = with(&json, "verificationMethod", Value::Array(vec![]));
    assert!(matches!(Document::from_json(&dangling), Err(Error::ValidationFailure)));
    let twice = with(
        &json,
        "assertionMethod",
        Value::Array(vec![method("a", 1).to_json(), method("a", 2).to_json()]),
    );
    assert!(matches!(Document::from_json(&twice), Err(Error::ValidationFailure)));
}

#[test]
fn change_json_round_trip() {
    let add = Change::Add("k".to_string(), obj(vec![("a", Value::Number(1))]));
    let remove = Change::Remove("k".to_string());
    let replace = Change::Replace("k".to_string(), Value::Array(vec![Value::Null]));
    assert_eq!(Change::from_json(&add.to_json()), Some(add.copy()));
    assert_eq!(Change::from_json(&remove.to_json()), Some(remove.copy()));
    assert_eq!(Change::from_json(&replace.to_json()), Some(replace.copy()));
    let unknown = obj(vec![("op", Value::text("move")), ("key", Value::text("k")), ("value", Value::Null)]);
    assert_eq!(Change::from_json(&unknown), None);
    let no_value = obj(vec![("op", Value::text("add")), ("key", Value::text("k"))]);
    assert_eq!(Change::from_json(&no_value), None);
    let no_key = obj(vec![("op", Value::text("remove"))]);
    assert_eq!(Change::from_json(&no_key), None);
    let extra = obj(vec![("op", Value::text("remove")), ("key", Value::text("k")), ("value", Value::Null)]);
    assert_eq!(Change::from_json(&extra), Some(remove));
}

#[test]
fn difference_json_round_trip_and_verification() {
    let pair = key(5);
    let a = full_document(&pair);
    let mut b = a.copy();
    b.clear_services().unwrap();
    b.update_key_agreement(&method("ka", 9)).unwrap();
    let diff = a.diff(&b, pair.secret(), "msg-1".to_string()).unwrap();
    assert_eq!(
        diff.diff.iter().map(|c| match c {
            Change::Add(k, _) => format!("+{}", k),
            Change::Remove(k) => format!("-{}", k),
            Change::Replace(k, _) => format!("~{}", k),
        })
        .collect::<Vec<_>>(),
        vec!["~keyAgreement", "~service"]
    );
    let json = diff.to_json();
    assert_eq!(DocumentDiff::from_json(&json), Some(diff));
    assert!(a.verify_diff_json(&json));
}

#[test]
fn corrupted_difference_json_does_not_verify() {
    let pair = key(5);
    let a = full_document(&pair);
    let mut b = a.copy();
    b.clear_services().unwrap();
    let json = a.diff(&b, pair.secret(), "msg-1".to_string()).unwrap().to_json();
    assert!(a.verify_diff_json(&json));

    assert!(!a.verify_diff_json(&with(&json, "previousMessageId", Value::text("msg-2"))));
    assert!(!a.verify_diff_json(&with(&json, "id", Value::text("did:example:124"))));
    assert!(!a.verify_diff_json(&with(&json, "diff", Value::Array(vec![]))));
    assert!(!a.verify_diff_json(&Value::Object(json.without("proof").unwrap())));
    assert!(!a.verify_diff_json(&Value::Object(json.without("id").unwrap())));
    assert!(!a.verify_diff_json(&with(&json, "diff", Value::text("x"))));
    assert!(!a.verify_diff_json(&Value::Null));
    assert!(!a.verify_diff_json(&Value::text("{")));

    let proof = json.get("proof").unwrap();
    let text = proof.get("proofValue").unwrap().as_text().unwrap().to_string();
    for at in 0..text.len() {
        let mut bytes = text.clone().into_bytes();
        bytes[at] = if bytes[at] == b'2' { b'3' } else { b'2' };
        let changed = String::from_utf8(bytes).unwrap();
        let broken = with(&json, "proof", with(proof, "proofValue", Value::Text(changed)));
        assert!(!a.verify_diff_json(&broken));
    }
    let renamed = with(&json, "proof", with(proof, "verificationMethod", Value::text("#nobody")));
    assert!(!a.verify_diff_json(&renamed));
}
