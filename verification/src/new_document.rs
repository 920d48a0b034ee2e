//! Fresh documents: a new key pair, an identifier derived from its public
//! key, and a document that holds the public key for authentication.

use vstd::prelude::*;
use vstd::string::StringExecFns;
use crate::base58::encode_b58;
use crate::base58::spec_b58_encode;
use crate::digest::Digest;
use crate::document::Document;
use crate::document::SpecDocument;
use crate::error::Error;
use crate::key::KeyPair;
use crate::key::KeyType;
use crate::method::Method;
use crate::method::MethodType;
use crate::method::SpecMethod;
use crate::method::SpecRef;
use crate::text::copy_str;
use crate::text::spec_opt;

verus! {

/// What a new identifier is made with, besides the public key.
#[derive(Debug, PartialEq, Eq)]
pub enum Params {
    Empty,
    Object { network: Option<String>, shard: Option<String>, tag: Option<String> },
}

/// The characters of a string that may be there.
pub open spec fn spec_chars(s: Option<&str>) -> Option<Seq<char>> {
    match s {
        Some(t) => Some(t@),
        None => None,
    }
}

impl Params {
    /// The network named, if any.
    pub open spec fn spec_network(&self) -> Option<Seq<char>> {
        match self {
            Params::Empty => None,
            Params::Object { network, .. } => spec_opt(*network),
        }
    }

    /// The shard named, if any.
    pub open spec fn spec_shard(&self) -> Option<Seq<char>> {
        match self {
            Params::Empty => None,
            Params::Object { shard, .. } => spec_opt(*shard),
        }
    }

    /// The fragment wanted for the method, if any.
    pub open spec fn spec_tag(&self) -> Option<Seq<char>> {
        match self {
            Params::Empty => None,
            Params::Object { tag, .. } => spec_opt(*tag),
        }
    }

    /// The network named, if any.
    pub fn network(&self) -> (s: Option<&str>)
        ensures
            spec_chars(s) == self.spec_network(),
    {
        match self {
            Params::Empty => None,
            Params::Object { network, .. } => match network {
                Some(n) => Some(n.as_str()),
                None => None,
            },
        }
    }

    /// The shard named, if any.
    pub fn shard(&self) -> (s: Option<&str>)
        ensures
            spec_chars(s) == self.spec_shard(),
    {
        match self {
            Params::Empty => None,
            Params::Object { shard, .. } => match shard {
                Some(n) => Some(n.as_str()),
                None => None,
            },
        }
    }

    /// The fragment wanted for the method, if any.
    pub fn tag(&self) -> (s: Option<&str>)
        ensures
            spec_chars(s) == self.spec_tag(),
    {
        match self {
            Params::Empty => None,
            Params::Object { tag, .. } => match tag {
                Some(n) => Some(n.as_str()),
                None => None,
            },
        }
    }
}

/// A part of an identifier that may be left out: the part and a colon, or
/// nothing.
pub open spec fn spec_segment(part: Option<Seq<char>>) -> Seq<char> {
    match part {
        Some(p) => p + ":"@,
        None => Seq::empty(),
    }
}

/// The identifier derived from a public key: the scheme and method, the
/// network and the shard where they are named, and the SHA-256 digest of the
/// public key as base58 text.
pub open spec fn spec_did(public: Seq<u8>, network: Option<Seq<char>>, shard: Option<Seq<char>>) -> Seq<char> {
    "did:iota:"@ + spec_segment(network) + spec_segment(shard) + spec_b58_encode(
        Digest::Sha256.spec_hash(public),
    )
}

/// The fragment of the method of a fresh document: the one wanted, or
/// `authentication`.
pub open spec fn spec_fragment_of(tag: Option<Seq<char>>) -> Seq<char> {
    match tag {
        Some(t) => t,
        None => "authentication"@,
    }
}

/// The method that holds a public key for authentication in a fresh
/// document.
pub open spec fn spec_auth_method(
    public: Seq<u8>,
    network: Option<Seq<char>>,
    shard: Option<Seq<char>>,
    tag: Option<Seq<char>>,
) -> SpecMethod {
    let did = spec_did(public, network, shard);
    SpecMethod {
        id: did + "#"@ + spec_fragment_of(tag),
        controller: did,
        type_: MethodType::Ed25519VerificationKey2018,
        key_data: public,
    }
}

/// The identifier derived from a public key.
pub fn create_did(public: &[u8], network: Option<&str>, shard: Option<&str>) -> (did: String)
    ensures
        did@ == spec_did(public@, spec_chars(network), spec_chars(shard)),
{
    let mut did: String = copy_str("did:iota:");
    match network {
        Some(n) => {
            did.append(n);
            did.append(":");
        },
        None => {},
    }
    match shard {
        Some(s) => {
            did.append(s);
            did.append(":");
        },
        None => {},
    }
    let tag: String = encode_b58(Digest::Sha256.hash(public).as_slice());
    did.append(tag.as_str());
    proof {
        assert(did@ =~= spec_did(public@, spec_chars(network), spec_chars(shard)));
    }
    did
}

/// The method that holds the public key of `key` for authentication.
pub fn create_method(key: &KeyPair, params: &Params) -> (m: Method)
    ensures
        m@ == spec_auth_method(key.spec_public(), params.spec_network(), params.spec_shard(), params.spec_tag()),
{
    let did: String = create_did(key.public(), params.network(), params.shard());
    let mut id: String = copy_str(did.as_str());
    id.append("#");
    match params.tag() {
        Some(t) => id.append(t),
        None => id.append("authentication"),
    }
    proof {
        assert(id@ =~= did@ + "#"@ + spec_fragment_of(params.spec_tag()));
    }
    Method::new(id.as_str(), did.as_str(), MethodType::Ed25519VerificationKey2018, key.public())
}

/// A fresh document with the key pair it was made for.
pub struct NewDocument {
    key: KeyPair,
    doc: Document,
}

impl NewDocument {
    /// The key pair, as held.
    pub closed spec fn spec_key(&self) -> KeyPair {
        self.key
    }

    /// The document, as held.
    pub closed spec fn spec_doc(&self) -> SpecDocument {
        self.doc@
    }

    /// A copy of the key pair.
    pub fn key(&self) -> (k: KeyPair)
        ensures
            k.spec_type() == self.spec_key().spec_type(),
            k.spec_public() == self.spec_key().spec_public(),
            k.spec_secret() == self.spec_key().spec_secret(),
    {
        self.key.copy()
    }

    /// A copy of the document.
    pub fn doc(&self) -> (d: Document)
        ensures
            d@ == self.spec_doc(),
    {
        self.doc.copy()
    }
}

/// The document that holds the public key of a key pair for authentication
/// and nothing else.
pub open spec fn spec_fresh(
    public: Seq<u8>,
    network: Option<Seq<char>>,
    shard: Option<Seq<char>>,
    tag: Option<Seq<char>>,
) -> SpecDocument {
    let m = spec_auth_method(public, network, shard, tag);
    SpecDocument {
        id: m.controller,
        verification_method: Seq::empty(),
        authentication: seq![SpecRef::Embed(m)],
        assertion_method: Seq::empty(),
        key_agreement: Seq::empty(),
        capability_delegation: Seq::empty(),
        capability_invocation: Seq::empty(),
        service: Seq::empty(),
        proof: None,
    }
}

impl Document {
    /// The document that holds the public key of `key` for authentication.
    pub fn from_keypair(key: KeyPair, params: &Params) -> (r: Result<NewDocument, Error>)
        ensures
            r is Ok,
            r->Ok_0.spec_key() == key,
            r->Ok_0.spec_doc() == spec_fresh(
                key.spec_public(),
                params.spec_network(),
                params.spec_shard(),
                params.spec_tag(),
            ),
    {
        let auth: Method = create_method(&key, params);
        match Document::from_auth(auth) {
            Ok(doc) => Ok(NewDocument { key, doc }),
            Err(e) => Err(e),
        }
    }

    /// A fresh key pair of the given type and the document that holds its
    /// public key for authentication. Fails with `GenerationFailure` when the
    /// source of randomness does, and in no other way.
    pub fn new(type_: KeyType, params: &Params) -> (r: Result<NewDocument, Error>)
        ensures
            r is Err ==> r->Err_0 == Error::GenerationFailure,
            r is Ok ==> r->Ok_0.spec_key().spec_type() == type_,
            r is Ok ==> r->Ok_0.spec_key().spec_public() == type_.spec_public_of(
                r->Ok_0.spec_key().spec_secret(),
            ),
            r is Ok ==> r->Ok_0.spec_doc() == spec_fresh(
                r->Ok_0.spec_key().spec_public(),
                params.spec_network(),
                params.spec_shard(),
                params.spec_tag(),
            ),
    {
        let key: KeyPair = match KeyPair::generate(type_) {
            Ok(k) => k,
            Err(_) => return Err(Error::GenerationFailure),
        };
        match Self::from_keypair(key, params) {
            Ok(fresh) => Ok(fresh),
            Err(_) => Err(Error::GenerationFailure),
        }
    }
}

} // verus!
