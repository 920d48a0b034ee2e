use identity::base58::decode_b58;
use identity::base58::encode_b58;
use identity::digest;
use identity::digest::Digest;
use identity::error::Error;
use identity::key::KeyType;
use identity::merkle_key::encode_key;
use identity::merkle_key::extract_root;
use identity::merkle_key::extract_tags;

#[test]
fn merkle_key_is_two_tags_then_root() {
    let root = digest::Hash::from_bytes(vec![9u8; 32]);
    let key = encode_key(KeyType::Ed25519, Digest::Sha256, &root);
    assert_eq!(key.len(), 34);
    assert_eq!(key[0], 0);
    assert_eq!(key[1], 0);
    assert_eq!(&key[2..], &[9u8; 32][..]);
}

#[test]
fn extract_tags_gives_back_what_was_encoded() {
    let root = Digest::Sha256.hash(b"root");
    let key = encode_key(KeyType::Ed25519, Digest::Sha256, &root);
    assert_eq!(extract_tags(&key), Ok((KeyType::Ed25519, Digest::Sha256)));
    assert_eq!(extract_root(&key), Ok(root));
}

#[test]
fn extract_tags_refuses_short_and_unknown() {
    assert_eq!(extract_tags(&[]), Err(Error::MalformedKey));
    assert_eq!(extract_tags(&[0]), Err(Error::MalformedKey));
    assert_eq!(extract_tags(&[1, 0, 5]), Err(Error::UnsupportedAlgorithm));
    assert_eq!(extract_tags(&[0, 7, 5]), Err(Error::UnsupportedAlgorithm));
    assert_eq!(extract_tags(&[0, 0]), Ok((KeyType::Ed25519, Digest::Sha256)));
}

#[test]
fn extract_root_wants_the_length_of_the_digest() {
    assert_eq!(extract_root(&[0, 0]), Err(Error::MalformedKey));
    assert_eq!(extract_root(&[0u8; 33]), Err(Error::MalformedKey));
    assert_eq!(extract_root(&[0u8; 35]), Err(Error::MalformedKey));
    assert_eq!(extract_root(&[3u8; 34]), Err(Error::UnsupportedAlgorithm));
    assert!(extract_root(&[0u8; 34]).is_ok());
}

#[test]
fn base58_known_texts() {
    assert_eq!(encode_b58(b"hello world"), "StV1DL6CwTryKyV");
    assert_eq!(encode_b58(&[0, 0, 1, 2, 3]), "11Ldp");
    assert_eq!(encode_b58(&[]), "");
    assert_eq!(decode_b58("StV1DL6CwTryKyV"), Ok(b"hello world".to_vec()));
    assert_eq!(decode_b58("11Ldp"), Ok(vec![0, 0, 1, 2, 3]));
}

#[test]
fn base58_refuses_foreign_characters() {
    assert_eq!(decode_b58("0OIl"), Err(Error::EncodingFailure));
    assert_eq!(decode_b58("abc def"), Err(Error::EncodingFailure));
    assert_eq!(decode_b58("h\u{e9}llo"), Err(Error::EncodingFailure));
}

#[test]
fn error_descriptions() {
    assert_eq!(Error::InvalidSecretIndex.describe(), "invalid secret key index");
    assert_eq!(Error::InvalidPublicProof.describe(), "invalid public key proof");
    assert_eq!(Error::UnresolvedMethod.describe(), "verification method not found");
    assert_ne!(Error::GenerationFailure.describe(), Error::EncodingFailure.describe());
}
