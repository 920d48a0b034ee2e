use identity::digest;
use identity::digest::Digest;
use identity::error::Error;
use identity::merkle::leaf_hash;
use identity::merkle::node_hash;
use identity::merkle::MerkleTree;
use identity::merkle::Node;
use identity::merkle::Proof;

fn unhex(s: &str) -> Vec<u8> {
    (0..s.len() / 2).map(|i| u8::from_str_radix(&s[2 * i..2 * i + 2], 16).unwrap()).collect()
}

fn leaves(n: usize) -> Vec<Vec<u8>> {
    (0..n).map(|i| vec![i as u8, (i * 7) as u8, 0xAB]).collect()
}

fn height(n: usize) -> usize {
    let mut len = n;
    let mut h = 0;
    while len > 1 {
        len = (len + 1) / 2;
        h += 1;
    }
    h
}

#[test]
fn sha256_of_known_inputs() {
    let empty = Digest::Sha256.hash(&[]);
    assert_eq!(
        empty.as_slice(),
        &unhex("e3b0c44298fc1c149afbf4c8996fb92427ae41e4649b934ca495991b7852b855")[..]
    );
    assert_eq!(Digest::Sha256.output_size(), 32);
    assert_eq!(digest::Hash::from_bytes(b"hello world".to_vec()).to_b58(), "StV1DL6CwTryKyV");
    let abc = Digest::Sha256.hash(b"abc");
    assert_eq!(
        abc.as_slice(),
        &unhex("ba7816bf8f01cfea414140de5dae2223b00361a396177a9cb410ff61f20015ad")[..]
    );
}

#[test]
fn leaf_hash_has_its_own_prefix() {
    let leaf = leaf_hash(Digest::Sha256, b"a");
    assert_eq!(
        leaf.as_slice(),
        &unhex("022a6979e6dab7aa5ae4c3e5e45f7e977112a7e63593820dbec1ec738a24f93c")[..]
    );
    let of_nothing = leaf_hash(Digest::Sha256, &[]);
    assert_eq!(
        of_nothing.as_slice(),
        &unhex("6e340b9cffb37a989ca544e6bb780a2c78901d3fb33738768511a30617afa01d")[..]
    );
}

#[test]
fn root_of_no_leaves_is_hash_of_nothing() {
    let tree = MerkleTree::build(Digest::Sha256, &Vec::new());
    assert_eq!(tree.len(), 0);
    assert_eq!(
        tree.root().as_slice(),
        &unhex("e3b0c44298fc1c149afbf4c8996fb92427ae41e4649b934ca495991b7852b855")[..]
    );
}

#[test]
fn root_of_one_leaf_is_the_leaf_hash() {
    let data = vec![b"a".to_vec()];
    let tree = MerkleTree::build(Digest::Sha256, &data);
    assert_eq!(tree.root(), &leaf_hash(Digest::Sha256, b"a"));
    assert_eq!(tree.prove(0).unwrap().len(), 0);
}

#[test]
fn root_of_two_leaves_is_left_then_right() {
    let data = vec![b"a".to_vec(), b"b".to_vec()];
    let tree = MerkleTree::build(Digest::Sha256, &data);
    assert_eq!(
        tree.root().as_slice(),
        &unhex("b137985ff484fb600db93107c77b0365c80d78f5b429ded0fd97361d077999eb")[..]
    );
    let swapped = MerkleTree::build(Digest::Sha256, &vec![b"b".to_vec(), b"a".to_vec()]);
    assert_ne!(swapped.root(), tree.root());
}

#[test]
fn odd_level_pairs_last_node_with_itself() {
    let data = vec![b"a".to_vec(), b"b".to_vec(), b"c".to_vec()];
    let tree = MerkleTree::build(Digest::Sha256, &data);
    assert_eq!(
        tree.root().as_slice(),
        &unhex("e9636069c740c9ff51625b01a0b040396d265a9b920cc6febdfa5ecc9f58ecce")[..]
    );
    let c = leaf_hash(Digest::Sha256, b"c");
    let proof = tree.prove(2).unwrap();
    assert_eq!(proof.nodes()[0], Node::R(c));
}

#[test]
fn every_leaf_has_a_proof_that_verifies() {
    for n in 1..20usize {
        let data = leaves(n);
        let tree = MerkleTree::build(Digest::Sha256, &data);
        assert_eq!(tree.len(), n);
        for i in 0..n {
            let proof = tree.prove(i).unwrap();
            assert_eq!(proof.len(), height(n));
            let leaf = leaf_hash(Digest::Sha256, &data[i]);
            assert!(proof.verify(Digest::Sha256, &leaf, tree.root()));
        }
    }
}

#[test]
fn no_proof_beyond_the_last_leaf() {
    for n in 0..10usize {
        let tree = MerkleTree::build(Digest::Sha256, &leaves(n));
        assert!(tree.prove(n).is_none());
        assert!(tree.prove(n + 5).is_none());
        assert!(tree.prove(usize::MAX).is_none());
    }
}

#[test]
fn try_prove_names_the_failure() {
    let tree = MerkleTree::build(Digest::Sha256, &leaves(3));
    assert_eq!(tree.try_prove(2), Ok(tree.prove(2).unwrap()));
    assert_eq!(tree.try_prove(3), Err(Error::IndexOutOfRange));
}

#[test]
fn changing_one_leaf_changes_the_root() {
    for n in 1..12usize {
        let data = leaves(n);
        let root = MerkleTree::build(Digest::Sha256, &data).root().copy();
        for i in 0..n {
            let mut other = data.clone();
            other[i][0] ^= 0x80;
            let changed = MerkleTree::build(Digest::Sha256, &other);
            assert_ne!(changed.root(), &root);
        }
    }
}

#[test]
fn proof_fails_for_wrong_leaf_root_or_length() {
    let data = leaves(6);
    let tree = MerkleTree::build(Digest::Sha256, &data);
    let proof = tree.prove(3).unwrap();
    let leaf = leaf_hash(Digest::Sha256, &data[3]);
    let other_leaf = leaf_hash(Digest::Sha256, &data[2]);
    assert!(!proof.verify(Digest::Sha256, &other_leaf, tree.root()));
    let other_root = MerkleTree::build(Digest::Sha256, &leaves(5));
    assert!(!proof.verify(Digest::Sha256, &leaf, other_root.root()));
    let mut short: Vec<Node> = Vec::new();
    short.push(proof.nodes()[0].clone());
    assert!(!Proof::new(short).verify(Digest::Sha256, &leaf, tree.root()));
    let odd = Proof::new(vec![Node::L(digest::Hash::from_bytes(vec![1, 2, 3]))]);
    assert!(!odd.verify(Digest::Sha256, &leaf, tree.root()));
    assert!(!Proof::new(Vec::new()).verify(Digest::Sha256, &leaf, tree.root()));
}

#[test]
fn proof_replays_node_hashes() {
    let data = leaves(2);
    let tree = MerkleTree::build(Digest::Sha256, &data);
    let l0 = leaf_hash(Digest::Sha256, &data[0]);
    let l1 = leaf_hash(Digest::Sha256, &data[1]);
    assert_eq!(&node_hash(Digest::Sha256, &l0, &l1), tree.root());
    assert_eq!(tree.prove(0).unwrap().nodes()[0], Node::R(l1.copy()));
    assert_eq!(tree.prove(1).unwrap().nodes()[0], Node::L(l0.copy()));
    assert!(l0.same(&l0.copy()));
    assert!(!l0.same(&l1));
}

#[test]
fn proof_encoding_round_trips() {
    let data = leaves(7);
    let tree = MerkleTree::build(Digest::Sha256, &data);
    for i in 0..7 {
        let proof = tree.prove(i).unwrap();
        let bytes = proof.encode();
        assert_eq!(bytes.len(), proof.len() * 33);
        let back = Proof::decode(Digest::Sha256, &bytes).unwrap();
        assert_eq!(back, proof);
    }
    assert_eq!(Proof::decode(Digest::Sha256, &[]).unwrap().len(), 0);
}

#[test]
fn proof_encoding_is_side_then_hash() {
    let data = leaves(2);
    let tree = MerkleTree::build(Digest::Sha256, &data);
    let l0 = leaf_hash(Digest::Sha256, &data[0]);
    let l1 = leaf_hash(Digest::Sha256, &data[1]);
    let mut right = vec![1u8];
    right.extend_from_slice(l1.as_slice());
    assert_eq!(tree.prove(0).unwrap().encode(), right);
    let mut left = vec![0u8];
    left.extend_from_slice(l0.as_slice());
    assert_eq!(tree.prove(1).unwrap().encode(), left);
}

#[test]
fn malformed_proof_encodings_are_refused() {
    assert!(Proof::decode(Digest::Sha256, &[0u8; 32]).is_none());
    assert!(Proof::decode(Digest::Sha256, &[0u8; 34]).is_none());
    let mut bad_side = vec![2u8];
    bad_side.extend_from_slice(&[7u8; 32]);
    assert!(Proof::decode(Digest::Sha256, &bad_side).is_none());
    let mut good = vec![1u8];
    good.extend_from_slice(&[7u8; 32]);
    assert_eq!(Proof::decode(Digest::Sha256, &good).unwrap().len(), 1);
}
