use identity::base58::encode_b58;
use identity::digest::Digest;
use identity::error::Error;
use identity::json::Value;
use identity::key::KeyPair;
use identity::key::KeyType;
use identity::key_collection::KeyCollection;
use identity::merkle::leaf_hash;
use identity::merkle::MerkleTree;

fn unhex(s: &str) -> Vec<u8> {
    (0..s.len() / 2).map(|i| u8::from_str_radix(&s[2 * i..2 * i + 2], 16).unwrap()).collect()
}

fn obj(members: Vec<(&str, Value)>) -> Value {
    Value::Object(members.into_iter().map(|(k, v)| (k.to_string(), v)).collect())
}

fn secrets(n: usize) -> Vec<Vec<u8>> {
    (0..n).map(|i| vec![(i + 1) as u8; 32]).collect()
}

fn pairs_of(c: &KeyCollection) -> Vec<(Vec<u8>, Vec<u8>)> {
    (0..c.len()).map(|i| (c.public(i).unwrap().to_vec(), c.secret(i).unwrap().to_vec())).collect()
}

#[test]
fn key_type_names() {
    assert_eq!(KeyType::Ed25519.name(), "ed25519");
    assert_eq!(KeyType::parse("ed25519"), Some(KeyType::Ed25519));
    assert_eq!(KeyType::parse("Ed25519"), None);
    assert_eq!(KeyType::parse(""), None);
}

#[test]
fn public_key_of_a_known_secret_key() {
    let secret = unhex("9d61b19deffd5a60ba844af492ec2cc44449c5697b326919703bac031cae7f60");
    let pair = KeyPair::from_secret(KeyType::Ed25519, secret.clone()).unwrap();
    assert_eq!(pair.type_(), KeyType::Ed25519);
    assert_eq!(pair.secret(), &secret[..]);
    assert_eq!(
        pair.public(),
        &unhex("d75a980182b10ab7d54bfed3c964073a0ee172f3daa62325af021a68f707511a")[..]
    );
    assert_eq!(pair.copy(), pair);
}

#[test]
fn secret_key_of_wrong_length_is_refused() {
    assert_eq!(KeyPair::from_secret(KeyType::Ed25519, vec![1u8; 31]), Err(Error::MalformedKey));
    assert_eq!(KeyPair::from_secret(KeyType::Ed25519, vec![1u8; 33]), Err(Error::MalformedKey));
    assert_eq!(KeyPair::from_secret(KeyType::Ed25519, Vec::new()), Err(Error::MalformedKey));
}

#[test]
fn generated_key_pairs_belong_together() {
    let a = KeyPair::generate(KeyType::Ed25519).unwrap();
    let b = KeyPair::generate(KeyType::Ed25519).unwrap();
    assert_eq!(a.secret().len(), 32);
    assert_eq!(a.public().len(), 32);
    assert_ne!(a.secret(), b.secret());
    let again = KeyPair::from_secret(KeyType::Ed25519, a.secret().to_vec()).unwrap();
    assert_eq!(again.public(), a.public());
}

#[test]
fn new_collection_has_the_count_asked_for() {
    let c = KeyCollection::new(KeyType::Ed25519, 4).unwrap();
    assert_eq!(c.len(), 4);
    assert_eq!(c.length(), 4);
    assert!(!c.is_empty());
    assert_eq!(c.type_(), KeyType::Ed25519);
    for i in 0..4 {
        let pair = c.keypair(i).unwrap();
        let derived = KeyPair::from_secret(KeyType::Ed25519, pair.secret().to_vec()).unwrap();
        assert_eq!(derived.public(), c.public(i).unwrap());
        for j in 0..i {
            assert_ne!(c.secret(i), c.secret(j));
        }
    }
    assert!(c.keypair(4).is_none());
    let none = KeyCollection::new(KeyType::Ed25519, 0).unwrap();
    assert!(none.is_empty());
}

#[test]
fn collection_from_secrets_keeps_order() {
    let c = KeyCollection::from_secrets(KeyType::Ed25519, secrets(3)).unwrap();
    assert_eq!(c.len(), 3);
    for i in 0..3 {
        assert_eq!(c.secret(i).unwrap(), &vec![(i + 1) as u8; 32][..]);
        let pair = KeyPair::from_secret(KeyType::Ed25519, vec![(i + 1) as u8; 32]).unwrap();
        assert_eq!(c.public(i).unwrap(), pair.public());
        assert_eq!(c.keypair(i).unwrap(), pair);
    }
    assert_eq!(c.public(3), None);
    assert_eq!(c.secret(3), None);
    assert_eq!(c.iter_secret(), secrets(3));
    assert_eq!(c.iter_public().len(), 3);
    assert_eq!(c.iter_public(), c.iter_public());
    let mut bad = secrets(3);
    bad[1].pop();
    assert!(matches!(KeyCollection::from_secrets(KeyType::Ed25519, bad), Err(Error::MalformedKey)));
}

#[test]
fn collection_from_no_pairs_is_refused() {
    assert!(matches!(
        KeyCollection::from_iterator(KeyType::Ed25519, Vec::new()),
        Err(Error::EmptyCollection)
    ));
    let c = KeyCollection::from_iterator(KeyType::Ed25519, vec![(vec![1, 2], vec![3, 4])]).unwrap();
    assert_eq!(c.len(), 1);
    assert_eq!(c.public(0), Some(&[1u8, 2][..]));
    assert_eq!(c.secret(0), Some(&[3u8, 4][..]));
    assert!(KeyCollection::empty(KeyType::Ed25519).is_empty());
}

#[test]
fn merkle_root_is_the_root_over_the_public_keys() {
    let c = KeyCollection::from_secrets(KeyType::Ed25519, secrets(5)).unwrap();
    let tree = MerkleTree::build(Digest::Sha256, &c.iter_public());
    assert_eq!(&c.merkle_root(Digest::Sha256), tree.root());
    for i in 0..5 {
        let proof = c.merkle_proof(Digest::Sha256, i).unwrap();
        assert_eq!(proof, tree.prove(i).unwrap());
        let leaf = leaf_hash(Digest::Sha256, c.public(i).unwrap());
        assert!(proof.verify(Digest::Sha256, &leaf, &c.merkle_root(Digest::Sha256)));
    }
    assert!(c.merkle_proof(Digest::Sha256, 5).is_none());
}

#[test]
fn collection_json_has_type_and_keys_in_order() {
    let c = KeyCollection::from_iterator(
        KeyType::Ed25519,
        vec![(b"hello world".to_vec(), vec![0, 0, 1, 2, 3])],
    )
    .unwrap();
    let expected = obj(vec![
        ("type", Value::text("ed25519")),
        (
            "keys",
            Value::Array(vec![obj(vec![
                ("public", Value::text("StV1DL6CwTryKyV")),
                ("secret", Value::text("11Ldp")),
            ])]),
        ),
    ]);
    assert_eq!(c.to_json(), expected);
}

#[test]
fn collection_json_round_trip() {
    let c = KeyCollection::new(KeyType::Ed25519, 5).unwrap();
    let back = KeyCollection::from_json(&c.to_json()).unwrap();
    assert_eq!(back.type_(), c.type_());
    assert_eq!(pairs_of(&back), pairs_of(&c));
    assert_eq!(back.merkle_root(Digest::Sha256), c.merkle_root(Digest::Sha256));
}

#[test]
fn collection_json_passes_over_keys_that_are_not_base58() {
    let good = obj(vec![
        ("public", Value::Text(encode_b58(&[1, 2, 3]))),
        ("secret", Value::Text(encode_b58(&[4, 5, 6]))),
    ]);
    let bad_public = obj(vec![("public", Value::text("0OIl")), ("secret", Value::Text(encode_b58(&[7])))]);
    let bad_secret = obj(vec![("public", Value::Text(encode_b58(&[8]))), ("secret", Value::text("not base58!"))]);
    let last = obj(vec![
        ("secret", Value::Text(encode_b58(&[9]))),
        ("public", Value::Text(encode_b58(&[10]))),
    ]);
    let json = obj(vec![
        ("keys", Value::Array(vec![bad_public, good, bad_secret, last])),
        ("type", Value::text("ed25519")),
    ]);
    let c = KeyCollection::from_json(&json).unwrap();
    assert_eq!(pairs_of(&c), vec![(vec![1, 2, 3], vec![4, 5, 6]), (vec![10], vec![9])]);
}

#[test]
fn collection_json_without_a_readable_pair_is_empty() {
    let bad = obj(vec![("public", Value::text("0")), ("secret", Value::text("0"))]);
    let json = obj(vec![("type", Value::text("ed25519")), ("keys", Value::Array(vec![bad]))]);
    assert!(matches!(KeyCollection::from_json(&json), Err(Error::EmptyCollection)));
    let none = obj(vec![("type", Value::text("ed25519")), ("keys", Value::Array(vec![]))]);
    assert!(matches!(KeyCollection::from_json(&none), Err(Error::EmptyCollection)));
    let empty = KeyCollection::empty(KeyType::Ed25519);
    assert!(matches!(KeyCollection::from_json(&empty.to_json()), Err(Error::EmptyCollection)));
}

#[test]
fn collection_json_of_wrong_shape_is_refused() {
    let pair = obj(vec![("public", Value::text("2")), ("secret", Value::text("3"))]);
    let no_type = obj(vec![("keys", Value::Array(vec![pair.deep_copy()]))]);
    assert!(matches!(KeyCollection::from_json(&no_type), Err(Error::EncodingFailure)));
    let no_keys = obj(vec![("type", Value::text("ed25519"))]);
    assert!(matches!(KeyCollection::from_json(&no_keys), Err(Error::EncodingFailure)));
    let keys_not_list = obj(vec![("type", Value::text("ed25519")), ("keys", pair.deep_copy())]);
    assert!(matches!(KeyCollection::from_json(&keys_not_list), Err(Error::EncodingFailure)));
    let unknown = obj(vec![("type", Value::text("rsa")), ("keys", Value::Array(vec![pair.deep_copy()]))]);
    assert!(matches!(KeyCollection::from_json(&unknown), Err(Error::UnsupportedAlgorithm)));
    let item_not_object =
        obj(vec![("type", Value::text("ed25519")), ("keys", Value::Array(vec![pair, Value::Number(1)]))]);
    assert!(matches!(KeyCollection::from_json(&item_not_object), Err(Error::EncodingFailure)));
    let half = obj(vec![("public", Value::text("2"))]);
    let item_half = obj(vec![("type", Value::text("ed25519")), ("keys", Value::Array(vec![half]))]);
    assert!(matches!(KeyCollection::from_json(&item_half), Err(Error::EncodingFailure)));
    assert!(matches!(KeyCollection::from_json(&Value::Null), Err(Error::EncodingFailure)));
}
