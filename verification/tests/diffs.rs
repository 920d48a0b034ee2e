use identity::diff::diff_values;
use identity::diff::Change;
use identity::diff::DocumentDiff;
use identity::document::Document;
use identity::error::Error;
use identity::json::Value;
use identity::key::KeyPair;
use identity::key::KeyType;
use identity::method::Method;
use identity::method::MethodType;
use identity::signature::SetSignature;
use identity::signature::TrySignature;
use identity::signature::TrySignatureMut;

const DID: &str = "did:example:123";

fn obj(members: Vec<(&str, Value)>) -> Value {
    Value::Object(members.into_iter().map(|(k, v)| (k.to_string(), v)).collect())
}

fn key(seed: u8) -> KeyPair {
    KeyPair::from_secret(KeyType::Ed25519, vec![seed; 32]).unwrap()
}

fn auth_doc(pair: &KeyPair) -> Document {
    let m = Method::new("did:example:123#key-1", DID, MethodType::Ed25519VerificationKey2018, pair.public());
    Document::from_auth(m).unwrap()
}

fn changed(doc: &Document) -> Document {
    let mut other = doc.copy();
    let extra = Method::new("did:example:123#extra", DID, MethodType::Ed25519VerificationKey2018, &[1; 32]);
    other.update_key_agreement(&extra).unwrap();
    other
}

#[test]
fn difference_of_equal_objects_is_empty() {
    let a = obj(vec![("x", Value::Number(1)), ("y", Value::Array(vec![Value::Null]))]);
    assert_eq!(diff_values(&a, &a.deep_copy()), Ok(vec![]));
    let reordered = obj(vec![("y", Value::Array(vec![Value::Null])), ("x", Value::Number(1))]);
    assert_eq!(diff_values(&a, &reordered), Ok(vec![]));
    let inner1 = obj(vec![("o", obj(vec![("p", Value::Number(1)), ("q", Value::Number(2))]))]);
    let inner2 = obj(vec![("o", obj(vec![("q", Value::Number(2)), ("p", Value::Number(1))]))]);
    assert_eq!(diff_values(&inner1, &inner2), Ok(vec![]));
}

#[test]
fn difference_lists_removals_then_additions_and_replacements() {
    let old = obj(vec![
        ("keep", Value::Number(1)),
        ("gone", Value::Number(2)),
        ("list", Value::Array(vec![Value::Number(1), Value::Number(2)])),
        ("also_gone", Value::Null),
    ]);
    let new = obj(vec![
        ("fresh", Value::text("f")),
        ("list", Value::Array(vec![Value::Number(2), Value::Number(1)])),
        ("keep", Value::Number(1)),
        ("more", Value::Bool(true)),
    ]);
    assert_eq!(
        diff_values(&old, &new),
        Ok(vec![
            Change::Remove("gone".to_string()),
            Change::Remove("also_gone".to_string()),
            Change::Add("fresh".to_string(), Value::text("f")),
            Change::Replace(
                "list".to_string(),
                Value::Array(vec![Value::Number(2), Value::Number(1)])
            ),
            Change::Add("more".to_string(), Value::Bool(true)),
        ])
    );
}

#[test]
fn difference_wants_objects_with_a_canonical_form() {
    let a = obj(vec![("x", Value::Number(1))]);
    assert_eq!(diff_values(&a, &Value::Null), Err(Error::EncodingFailure));
    assert_eq!(diff_values(&Value::Array(vec![]), &a), Err(Error::EncodingFailure));
    let twice = obj(vec![("x", Value::Number(1)), ("x", Value::Number(2))]);
    assert_eq!(diff_values(&a, &twice), Err(Error::EncodingFailure));
    assert_eq!(diff_values(&twice, &a), Err(Error::EncodingFailure));
}

#[test]
fn change_json() {
    let add = Change::Add("k".to_string(), Value::Number(1));
    assert_eq!(
        add.to_json(),
        obj(vec![("op", Value::text("add")), ("key", Value::text("k")), ("value", Value::Number(1))])
    );
    let remove = Change::Remove("k".to_string());
    assert_eq!(remove.to_json(), obj(vec![("op", Value::text("remove")), ("key", Value::text("k"))]));
    let replace = Change::Replace("k".to_string(), Value::Null);
    assert_eq!(
        replace.to_json(),
        obj(vec![("op", Value::text("replace")), ("key", Value::text("k")), ("value", Value::Null)])
    );
    assert_eq!(add.copy(), add);
}

#[test]
fn signed_difference_verifies() {
    let pair = key(3);
    let a = auth_doc(&pair);
    let b = changed(&a);
    let diff = a.diff(&b, pair.secret(), "msg-1".to_string()).unwrap();
    assert_eq!(diff.id, DID);
    assert_eq!(diff.previous_message_id, "msg-1");
    assert_eq!(diff.diff.len(), 1);
    assert!(matches!(&diff.diff[0], Change::Replace(k, _) if k == "keyAgreement"));
    assert_eq!(diff.signature().unwrap().verification_method, "did:example:123#key-1");
    assert!(a.verify_diff(&diff));
    assert!(b.verify_diff(&diff));
    let json = diff.to_json();
    assert_eq!(json.get("id"), Some(&Value::text(DID)));
    assert_eq!(json.get("previousMessageId"), Some(&Value::text("msg-1")));
    assert_eq!(json.get("proof"), Some(&diff.signature().unwrap().to_json()));
    assert_eq!(diff.signable_json().get("proof"), None);
}

#[test]
fn corrupted_difference_does_not_verify() {
    let pair = key(3);
    let a = auth_doc(&pair);
    let b = changed(&a);
    let diff = a.diff(&b, pair.secret(), "msg-1".to_string()).unwrap();
    assert!(a.verify_diff(&diff));

    let mut other_message = a.diff(&b, pair.secret(), "msg-1".to_string()).unwrap();
    other_message.previous_message_id = "msg-2".to_string();
    assert!(!a.verify_diff(&other_message));

    let mut other_id = a.diff(&b, pair.secret(), "msg-1".to_string()).unwrap();
    other_id.id = "did:example:124".to_string();
    assert!(!a.verify_diff(&other_id));

    let mut other_patch = a.diff(&b, pair.secret(), "msg-1".to_string()).unwrap();
    other_patch.diff.push(Change::Remove("service".to_string()));
    assert!(!a.verify_diff(&other_patch));

    for byte in 0..64 {
        let mut flipped = a.diff(&b, pair.secret(), "msg-1".to_string()).unwrap();
        flipped.signature_mut().unwrap().value[byte] ^= 0x01;
        assert!(!a.verify_diff(&flipped));
    }

    let mut unsigned = a.diff(&b, pair.secret(), "msg-1".to_string()).unwrap();
    unsigned.proof = None;
    assert!(!a.verify_diff(&unsigned));

    let mut renamed = a.diff(&b, pair.secret(), "msg-1".to_string()).unwrap();
    renamed.signature_mut().unwrap().verification_method = "#nobody".to_string();
    assert!(!a.verify_diff(&renamed));
}

#[test]
fn difference_signed_with_a_foreign_key_does_not_verify() {
    let pair = key(3);
    let other = key(4);
    let a = auth_doc(&pair);
    let b = changed(&a);
    let diff = a.diff(&b, other.secret(), "msg-1".to_string()).unwrap();
    assert!(!a.verify_diff(&diff));
    let stranger = auth_doc(&other);
    assert!(stranger.verify_diff(&diff));
}

#[test]
fn difference_failures() {
    let pair = key(3);
    let a = auth_doc(&pair);
    let b = changed(&a);
    assert!(matches!(a.diff(&b, &[1, 2], "m".to_string()), Err(Error::MalformedKey)));
    let mut empty = a.copy();
    empty.clear_authentication().unwrap();
    assert!(matches!(empty.diff(&b, pair.secret(), "m".to_string()), Err(Error::UnresolvedMethod)));
}

#[test]
fn difference_takes_a_new_signature() {
    let pair = key(3);
    let a = auth_doc(&pair);
    let b = changed(&a);
    let first = a.diff(&b, pair.secret(), "msg-1".to_string()).unwrap();
    let mut second = DocumentDiff {
        id: DID.to_string(),
        diff: first.diff.iter().map(|c| c.copy()).collect(),
        previous_message_id: "msg-1".to_string(),
        proof: None,
    };
    assert!(second.signature().is_none());
    assert!(second.signature_mut().is_none());
    second.set_signature(first.signature().unwrap().copy());
    assert_eq!(second, first);
    assert!(a.verify_diff(&second));
}
