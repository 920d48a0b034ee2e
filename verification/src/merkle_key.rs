//! The byte layout of a Merkle key: one tag for the type of the committed
//! keys, one tag for the digest of the tree, then the raw root. The root has
//! no length prefix: the digest fixes its length.

use vstd::prelude::*;
use crate::bytes::append_bytes;
use crate::bytes::copy_bytes;
use crate::digest::Digest;
use crate::digest;
use crate::error::Error;
use crate::key::KeyType;

verus! {

/// Tag of Ed25519 keys.
pub const TAG_ED25519: u8 = 0x00;

/// Tag of the SHA-256 digest.
pub const TAG_SHA256: u8 = 0x00;

/// The tag of a key type.
pub open spec fn spec_key_tag(t: KeyType) -> u8 {
    match t {
        KeyType::Ed25519 => TAG_ED25519,
    }
}

/// The tag of a digest.
pub open spec fn spec_digest_tag(d: Digest) -> u8 {
    match d {
        Digest::Sha256 => TAG_SHA256,
    }
}

/// The key type a tag stands for, if any.
pub open spec fn spec_key_of_tag(tag: u8) -> Option<KeyType> {
    if tag == TAG_ED25519 {
        Some(KeyType::Ed25519)
    } else {
        None
    }
}

/// The digest a tag stands for, if any.
pub open spec fn spec_digest_of_tag(tag: u8) -> Option<Digest> {
    if tag == TAG_SHA256 {
        Some(Digest::Sha256)
    } else {
        None
    }
}

/// The bytes of a Merkle key: key tag, digest tag, root.
pub open spec fn spec_encode_key(t: KeyType, d: Digest, root: Seq<u8>) -> Seq<u8> {
    seq![spec_key_tag(t), spec_digest_tag(d)] + root
}

/// The two tags at the head of a Merkle key. Fewer than two bytes are a
/// malformed key; a tag that stands for nothing is an unsupported algorithm.
pub open spec fn spec_extract_tags(data: Seq<u8>) -> Result<(KeyType, Digest), Error> {
    if data.len() < 2 {
        Err(Error::MalformedKey)
    } else {
        match (spec_key_of_tag(data[0]), spec_digest_of_tag(data[1])) {
            (Some(t), Some(d)) => Ok((t, d)),
            _ => Err(Error::UnsupportedAlgorithm),
        }
    }
}

/// The root a Merkle key commits to: what follows the tags, which must have
/// the length of the digest's output.
pub open spec fn spec_extract_root(data: Seq<u8>) -> Result<Seq<u8>, Error> {
    match spec_extract_tags(data) {
        Err(e) => Err(e),
        Ok((_, d)) => if data.len() == 2 + d.spec_output_size() {
            Ok(data.skip(2))
        } else {
            Err(Error::MalformedKey)
        },
    }
}

/// The tag of a key type.
pub fn key_tag(t: KeyType) -> (tag: u8)
    ensures
        tag == spec_key_tag(t),
{
    match t {
        KeyType::Ed25519 => TAG_ED25519,
    }
}

/// The tag of a digest.
pub fn digest_tag(d: Digest) -> (tag: u8)
    ensures
        tag == spec_digest_tag(d),
{
    match d {
        Digest::Sha256 => TAG_SHA256,
    }
}

/// Writes a Merkle key for a batch of keys of type `t` committed under `root`
/// with digest `d`.
pub fn encode_key(t: KeyType, d: Digest, root: &digest::Hash) -> (out: Vec<u8>)
    ensures
        out@ == spec_encode_key(t, d, root@),
{
    let mut out: Vec<u8> = Vec::new();
    out.push(key_tag(t));
    out.push(digest_tag(d));
    append_bytes(&mut out, root.as_slice());
    assert(out@ =~= spec_encode_key(t, d, root@));
    out
}

/// Reads the two tags of a Merkle key. The tree is not needed for this.
pub fn extract_tags(data: &[u8]) -> (r: Result<(KeyType, Digest), Error>)
    ensures
        r == spec_extract_tags(data@),
{
    if data.len() < 2 {
        return Err(Error::MalformedKey);
    }
    if data[0] != TAG_ED25519 {
        return Err(Error::UnsupportedAlgorithm);
    }
    if data[1] != TAG_SHA256 {
        return Err(Error::UnsupportedAlgorithm);
    }
    Ok((KeyType::Ed25519, Digest::Sha256))
}

/// Reads the root a Merkle key commits to.
pub fn extract_root(data: &[u8]) -> (r: Result<digest::Hash, Error>)
    ensures
        r is Ok <==> spec_extract_root(data@) is Ok,
        r is Ok ==> r->Ok_0@ == spec_extract_root(data@)->Ok_0,
        r is Err ==> r->Err_0 == spec_extract_root(data@)->Err_0,
{
    match extract_tags(data) {
        Err(e) => Err(e),
        Ok((_, d)) => {
            if data.len() - 2 != d.output_size() {
                return Err(Error::MalformedKey);
            }
            let root: Vec<u8> = copy_bytes(vstd::slice::slice_subrange(data, 2, data.len()));
            assert(root@ =~= data@.skip(2));
            Ok(digest::Hash::from_bytes(root))
        },
    }
}

/// Reading the tags of a written Merkle key gives back the tags it was
/// written with.
pub proof fn lemma_extract_tags_of_encoded(t: KeyType, d: Digest, root: Seq<u8>)
    ensures
        spec_extract_tags(spec_encode_key(t, d, root)) == Ok::<(KeyType, Digest), Error>((t, d)),
{
}

/// Reading the root of a written Merkle key gives back the root, where the
/// root has the length of the digest's output.
pub proof fn lemma_extract_root_of_encoded(t: KeyType, d: Digest, root: Seq<u8>)
    requires
        root.len() == d.spec_output_size(),
    ensures
        spec_extract_root(spec_encode_key(t, d, root)) == Ok::<Seq<u8>, Error>(root),
{
    assert(spec_encode_key(t, d, root).skip(2) =~= root);
}

} // verus!
