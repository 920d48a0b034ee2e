//! An ordered batch of key pairs of one type.
//!
//! A collection is never changed once it is made: index `i` names the same
//! pair for as long as the collection lives. Its public keys, in order, are
//! the leaves of the Merkle tree that commits to the batch.

use vstd::prelude::*;
use crate::base58::decode_b58;
use crate::base58::encode_b58;
use crate::base58::spec_b58_decode;
use crate::base58::spec_b58_encode;
use crate::base58::spec_b58_round_trips;
use crate::bytes::copy_bytes;
use crate::digest::Digest;
use crate::digest;
use crate::ed25519;
use crate::error::Error;
use crate::json::Json;
use crate::json::Value;
use crate::json::spec_entry_views;
use crate::json::spec_views;
use crate::key::KeyPair;
use crate::key::KeyType;
use crate::merkle::MerkleTree;
use crate::merkle;
use crate::text::copy_str;

verus! {

/// The views of a list of pairs of byte vectors.
pub open spec fn spec_pairs(keys: Seq<(Vec<u8>, Vec<u8>)>) -> Seq<(Seq<u8>, Seq<u8>)> {
    Seq::new(keys.len(), |i: int| (keys[i].0@, keys[i].1@))
}

/// The view of a pair of byte vectors.
pub open spec fn spec_pair_view(pair: (Vec<u8>, Vec<u8>)) -> (Seq<u8>, Seq<u8>) {
    (pair.0@, pair.1@)
}

/// The public keys of a list of pairs of a public and a secret key.
pub open spec fn spec_publics(pairs: Seq<(Seq<u8>, Seq<u8>)>) -> Seq<Seq<u8>> {
    Seq::new(pairs.len(), |i: int| pairs[i].0)
}

/// The secret keys of a list of pairs of a public and a secret key.
pub open spec fn spec_secrets(pairs: Seq<(Seq<u8>, Seq<u8>)>) -> Seq<Seq<u8>> {
    Seq::new(pairs.len(), |i: int| pairs[i].1)
}

/// The pairs that belong to a list of secret keys of type `t`.
pub open spec fn spec_pairs_of_secrets(t: KeyType, secrets: Seq<Seq<u8>>) -> Seq<(Seq<u8>, Seq<u8>)> {
    Seq::new(secrets.len(), |i: int| (t.spec_public_of(secrets[i]), secrets[i]))
}

/// Whether every secret key has the length its type asks for.
pub open spec fn spec_secrets_sized(t: KeyType, secrets: Seq<Seq<u8>>) -> bool {
    forall|i: int| 0 <= i < secrets.len() ==> (#[trigger] secrets[i]).len() == t.spec_secret_len()
}

/// The JSON form of one pair: its two keys as base58 text.
pub open spec fn spec_key_json(pair: (Seq<u8>, Seq<u8>)) -> Json {
    Json::Object(
        seq![
            ("public"@, Json::Text(spec_b58_encode(pair.0))),
            ("secret"@, Json::Text(spec_b58_encode(pair.1))),
        ],
    )
}

/// The JSON forms of a list of pairs, in order.
pub open spec fn spec_keys_json(pairs: Seq<(Seq<u8>, Seq<u8>)>) -> Seq<Json> {
    Seq::new(pairs.len(), |i: int| spec_key_json(pairs[i]))
}

/// The JSON form of a collection: its type by name, then its pairs in order.
pub open spec fn spec_to_json(t: KeyType, pairs: Seq<(Seq<u8>, Seq<u8>)>) -> Json {
    Json::Object(seq![("type"@, Json::Text(t.spec_name())), ("keys"@, Json::Array(spec_keys_json(pairs)))])
}

/// What one item of the list of keys reads as. `None`: the item is not an
/// object with a text `public` and a text `secret`. `Some(None)`: it is, but
/// one of the two is not base58, so the item is passed over. Otherwise the
/// pair.
pub open spec fn spec_read_pair(j: Json) -> Option<Option<(Seq<u8>, Seq<u8>)>> {
    match (j.get("public"@), j.get("secret"@)) {
        (Some(Json::Text(p)), Some(Json::Text(s))) => match (spec_b58_decode(p), spec_b58_decode(s)) {
            (Some(public), Some(secret)) => Some(Some((public, secret))),
            _ => Some(None),
        },
        _ => None,
    }
}

/// The pairs that a list of items reads as, in order, the items that are not
/// base58 left out; `None` where an item has the wrong shape.
pub open spec fn spec_read_pairs(items: Seq<Json>) -> Option<Seq<(Seq<u8>, Seq<u8>)>>
    decreases items.len(),
{
    if items.len() == 0 {
        Some(Seq::empty())
    } else {
        match (spec_read_pairs(items.drop_last()), spec_read_pair(items.last())) {
            (Some(rest), Some(Some(pair))) => Some(rest.push(pair)),
            (Some(rest), Some(None)) => Some(rest),
            _ => None,
        }
    }
}

/// What a JSON value reads as: the type and the pairs of a collection. A
/// value of the wrong shape is an encoding failure, an unknown type an
/// unsupported algorithm, and a list without one readable pair an empty
/// collection.
pub open spec fn spec_from_json(j: Json) -> Result<(KeyType, Seq<(Seq<u8>, Seq<u8>)>), Error> {
    match (j.get("type"@), j.get("keys"@)) {
        (Some(Json::Text(name)), Some(Json::Array(items))) => match KeyType::spec_parse(name) {
            None => Err(Error::UnsupportedAlgorithm),
            Some(t) => match spec_read_pairs(items) {
                None => Err(Error::EncodingFailure),
                Some(pairs) => if pairs.len() == 0 {
                    Err(Error::EmptyCollection)
                } else {
                    Ok((t, pairs))
                },
            },
        },
        _ => Err(Error::EncodingFailure),
    }
}

/// An ordered batch of key pairs of one type.
pub struct KeyCollection {
    type_: KeyType,
    keys: Vec<(Vec<u8>, Vec<u8>)>,
}

impl View for KeyCollection {
    type V = Seq<(Seq<u8>, Seq<u8>)>;

    closed spec fn view(&self) -> Seq<(Seq<u8>, Seq<u8>)> {
        spec_pairs(self.keys@)
    }
}

fn read_pair(item: &Value) -> (r: Option<Option<(Vec<u8>, Vec<u8>)>>)
    ensures
        r is Some <==> spec_read_pair(item@) is Some,
        r is Some ==> (r->0 is Some <==> spec_read_pair(item@)->0 is Some),
        r is Some && r->0 is Some ==> spec_pair_view(r->0->0) == spec_read_pair(item@)->0->0,
{
    let public_text: &str = match item.get("public") {
        Some(v) => match v.as_text() {
            Some(s) => s,
            None => return None,
        },
        None => return None,
    };
    let secret_text: &str = match item.get("secret") {
        Some(v) => match v.as_text() {
            Some(s) => s,
            None => return None,
        },
        None => return None,
    };
    let public: Vec<u8> = match decode_b58(public_text) {
        Ok(bytes) => bytes,
        Err(_) => return Some(None),
    };
    let secret: Vec<u8> = match decode_b58(secret_text) {
        Ok(bytes) => bytes,
        Err(_) => return Some(None),
    };
    Some(Some((public, secret)))
}

impl KeyCollection {
    /// The type all keys of the collection have.
    pub closed spec fn spec_type(&self) -> KeyType {
        self.type_
    }

    /// A collection without keys.
    pub fn empty(type_: KeyType) -> (c: KeyCollection)
        ensures
            c.spec_type() == type_,
            c@.len() == 0,
    {
        let keys: Vec<(Vec<u8>, Vec<u8>)> = Vec::new();
        KeyCollection { type_, keys }
    }

    /// A collection of `count` fresh key pairs. Fails with
    /// `GenerationFailure` when the source of randomness does; nothing is
    /// tried twice. For no pairs the source is not asked, and the empty
    /// collection is returned.
    pub fn new(type_: KeyType, count: usize) -> (r: Result<KeyCollection, Error>)
        ensures
            r is Err ==> r->Err_0 == Error::GenerationFailure,
            r is Ok ==> r->Ok_0.spec_type() == type_ && r->Ok_0@.len() == count,
            r is Ok ==> r->Ok_0@ == spec_pairs_of_secrets(type_, spec_secrets(r->Ok_0@)),
            r is Ok ==> spec_secrets_sized(type_, spec_secrets(r->Ok_0@)),
            count == 0 ==> r is Ok,
    {
        let mut seeds: Vec<Vec<u8>> = Vec::new();
        let mut i: usize = 0;
        while i < count
            invariant
                i <= count,
                seeds.len() == i,
                forall|k: int| 0 <= k < i ==> (#[trigger] seeds@[k])@.len() == type_.spec_secret_len(),
            decreases count - i,
        {
            match ed25519::random_bytes(type_.secret_len()) {
                Some(seed) => seeds.push(seed),
                None => return Err(Error::GenerationFailure),
            }
            i += 1;
        }
        let ghost secrets = merkle::spec_byte_strings(seeds@);
        match Self::from_secrets(type_, seeds) {
            Ok(c) => {
                proof {
                    assert(spec_secrets(c@) =~= secrets);
                }
                Ok(c)
            },
            Err(_) => Err(Error::GenerationFailure),
        }
    }

    /// The collection of the pairs that belong to the given secret keys, in
    /// their order. Fails with `MalformedKey` exactly when a secret key has
    /// the wrong length for the type.
    pub fn from_secrets(type_: KeyType, secrets: Vec<Vec<u8>>) -> (r: Result<KeyCollection, Error>)
        ensures
            r is Ok <==> spec_secrets_sized(type_, merkle::spec_byte_strings(secrets@)),
            r is Ok ==> r->Ok_0.spec_type() == type_ && r->Ok_0@ == spec_pairs_of_secrets(
                type_,
                merkle::spec_byte_strings(secrets@),
            ),
            r is Err ==> r->Err_0 == Error::MalformedKey,
    {
        let ghost all = merkle::spec_byte_strings(secrets@);
        let mut keys: Vec<(Vec<u8>, Vec<u8>)> = Vec::new();
        let mut i: usize = 0;
        while i < secrets.len()
            invariant
                i <= secrets.len(),
                keys.len() == i,
                all == merkle::spec_byte_strings(secrets@),
                forall|k: int| 0 <= k < i ==> (#[trigger] all[k]).len() == type_.spec_secret_len(),
                forall|k: int|
                    0 <= k < i ==> (#[trigger] keys@[k]).0@ == type_.spec_public_of(all[k]) && keys@[k].1@
                        == all[k],
            decreases secrets.len() - i,
        {
            let secret: Vec<u8> = copy_bytes(secrets[i].as_slice());
            match KeyPair::from_secret(type_, secret) {
                Ok(pair) => {
                    let public: Vec<u8> = copy_bytes(pair.public());
                    let secret: Vec<u8> = copy_bytes(pair.secret());
                    keys.push((public, secret));
                },
                Err(_) => {
                    proof {
                        assert(all[i as int].len() != type_.spec_secret_len());
                    }
                    return Err(Error::MalformedKey);
                },
            }
            i += 1;
        }
        proof {
            assert(spec_pairs(keys@) =~= spec_pairs_of_secrets(type_, all));
        }
        Ok(KeyCollection { type_, keys })
    }

    /// The collection of the given pairs, in their order. Fails with
    /// `EmptyCollection` exactly when there is no pair.
    pub fn from_iterator(type_: KeyType, pairs: Vec<(Vec<u8>, Vec<u8>)>) -> (r: Result<KeyCollection, Error>)
        ensures
            pairs@.len() == 0 <==> r is Err,
            r is Err ==> r->Err_0 == Error::EmptyCollection,
            r is Ok ==> r->Ok_0.spec_type() == type_ && r->Ok_0@ == spec_pairs(pairs@),
    {
        if pairs.len() == 0 {
            return Err(Error::EmptyCollection);
        }
        Ok(KeyCollection { type_, keys: pairs })
    }

    /// The type all keys of the collection have.
    pub fn type_(&self) -> (t: KeyType)
        ensures
            t == self.spec_type(),
    {
        self.type_
    }

    /// The number of pairs.
    pub fn len(&self) -> (n: usize)
        ensures
            n == self@.len(),
    {
        self.keys.len()
    }

    /// The number of pairs.
    pub fn length(&self) -> (n: usize)
        ensures
            n == self@.len(),
    {
        self.keys.len()
    }

    /// Whether the collection holds no pair.
    pub fn is_empty(&self) -> (b: bool)
        ensures
            b == (self@.len() == 0),
    {
        self.keys.len() == 0
    }

    /// The public key at `index`; none beyond the last pair.
    pub fn public(&self, index: usize) -> (k: Option<&[u8]>)
        ensures
            k is Some <==> index < self@.len(),
            k is Some ==> k->0@ == self@[index as int].0,
    {
        if index < self.keys.len() {
            Some(self.keys[index].0.as_slice())
        } else {
            None
        }
    }

    /// The secret key at `index`; none beyond the last pair.
    pub fn secret(&self, index: usize) -> (k: Option<&[u8]>)
        ensures
            k is Some <==> index < self@.len(),
            k is Some ==> k->0@ == self@[index as int].1,
    {
        if index < self.keys.len() {
            Some(self.keys[index].1.as_slice())
        } else {
            None
        }
    }

    /// The pair at `index`; none beyond the last pair.
    pub fn keypair(&self, index: usize) -> (p: Option<KeyPair>)
        ensures
            p is Some <==> index < self@.len(),
            p is Some ==> p->0.spec_type() == self.spec_type() && p->0.spec_public() == self@[index as int].0
                && p->0.spec_secret() == self@[index as int].1,
    {
        if index < self.keys.len() {
            let public: Vec<u8> = copy_bytes(self.keys[index].0.as_slice());
            let secret: Vec<u8> = copy_bytes(self.keys[index].1.as_slice());
            Some(KeyPair::from_keys(self.type_, public, secret))
        } else {
            None
        }
    }

    /// The public keys, in the order of their indices.
    pub fn iter_public(&self) -> (keys: Vec<Vec<u8>>)
        ensures
            merkle::spec_byte_strings(keys@) == spec_publics(self@),
    {
        let mut out: Vec<Vec<u8>> = Vec::new();
        let mut i: usize = 0;
        while i < self.keys.len()
            invariant
                i <= self.keys.len(),
                out.len() == i,
                forall|k: int| 0 <= k < i ==> (#[trigger] out@[k])@ == self.keys@[k].0@,
            decreases self.keys.len() - i,
        {
            out.push(copy_bytes(self.keys[i].0.as_slice()));
            i += 1;
        }
        assert(merkle::spec_byte_strings(out@) =~= spec_publics(self@));
        out
    }

    /// The secret keys, in the order of their indices.
    pub fn iter_secret(&self) -> (keys: Vec<Vec<u8>>)
        ensures
            merkle::spec_byte_strings(keys@) == spec_secrets(self@),
    {
        let mut out: Vec<Vec<u8>> = Vec::new();
        let mut i: usize = 0;
        while i < self.keys.len()
            invariant
                i <= self.keys.len(),
                out.len() == i,
                forall|k: int| 0 <= k < i ==> (#[trigger] out@[k])@ == self.keys@[k].1@,
            decreases self.keys.len() - i,
        {
            out.push(copy_bytes(self.keys[i].1.as_slice()));
            i += 1;
        }
        assert(merkle::spec_byte_strings(out@) =~= spec_secrets(self@));
        out
    }

    /// The root of the Merkle tree whose leaves are the public keys in the
    /// order of the collection. Computed afresh at every call.
    pub fn merkle_root(&self, d: Digest) -> (root: digest::Hash)
        ensures
            root@ == merkle::spec_tree_root(d, spec_publics(self@)),
            root@.len() == d.spec_output_size(),
    {
        let publics: Vec<Vec<u8>> = self.iter_public();
        let tree: MerkleTree = MerkleTree::build(d, &publics);
        tree.root().copy()
    }

    /// The proof that the public key at `index` is a leaf of the tree; none
    /// beyond the last pair.
    pub fn merkle_proof(&self, d: Digest, index: usize) -> (p: Option<merkle::Proof>)
        ensures
            p is Some <==> index < self@.len(),
            p is Some ==> Some(p->0@) == merkle::spec_tree_proof(d, spec_publics(self@), index as int),
            p is Some ==> merkle::spec_nodes_sized(d, p->0@),
            merkle::spec_tree_root(d, spec_publics(self@)).len() == d.spec_output_size(),
    {
        let publics: Vec<Vec<u8>> = self.iter_public();
        let tree: MerkleTree = MerkleTree::build(d, &publics);
        let _ = tree.root();
        tree.prove(index)
    }

    /// The JSON form of the collection: `type`, then `keys` with the two
    /// keys of each pair as base58 text, in the order of the collection.
    /// Reading the JSON form of a collection that is not empty gives its
    /// type and its pairs back.
    pub fn to_json(&self) -> (value: Value)
        ensures
            value@ == spec_to_json(self.spec_type(), self@),
            self@.len() > 0 ==> spec_from_json(value@) == Ok::<(KeyType, Seq<(Seq<u8>, Seq<u8>)>), Error>(
                (self.spec_type(), self@),
            ),
    {
        let mut items: Vec<Value> = Vec::new();
        let mut i: usize = 0;
        while i < self.keys.len()
            invariant
                i <= self.keys.len(),
                items.len() == i,
                forall|k: int| 0 <= k < i ==> (#[trigger] items@[k])@ == spec_key_json(self@[k]),
                forall|k: int|
                    0 <= k < i ==> spec_b58_round_trips((#[trigger] self@[k]).0) && spec_b58_round_trips(
                        self@[k].1,
                    ),
            decreases self.keys.len() - i,
        {
            let public: String = encode_b58(self.keys[i].0.as_slice());
            let secret: String = encode_b58(self.keys[i].1.as_slice());
            let mut entry: Vec<(String, Value)> = Vec::new();
            entry.push((copy_str("public"), Value::Text(public)));
            entry.push((copy_str("secret"), Value::Text(secret)));
            let item: Value = Value::Object(entry);
            proof {
                assert(spec_entry_views(entry@) =~= spec_key_json(self@[i as int])->Object_0);
            }
            items.push(item);
            i += 1;
        }
        proof {
            assert(spec_views(items@) =~= spec_keys_json(self@));
        }
        let mut top: Vec<(String, Value)> = Vec::new();
        top.push((copy_str("type"), Value::text(self.type_.name())));
        top.push((copy_str("keys"), Value::Array(items)));
        proof {
            assert(spec_entry_views(top@) =~= spec_to_json(self.spec_type(), self@)->Object_0);
            if self@.len() > 0 {
                lemma_from_json_to_json(self.spec_type(), self@);
            }
        }
        Value::Object(top)
    }

    /// Reads a collection from its JSON form. An item of `keys` whose text
    /// is not base58 is passed over without an error.
    pub fn from_json(value: &Value) -> (r: Result<KeyCollection, Error>)
        ensures
            r is Ok <==> spec_from_json(value@) is Ok,
            r is Ok ==> (r->Ok_0.spec_type(), r->Ok_0@) == spec_from_json(value@)->Ok_0,
            r is Err ==> r->Err_0 == spec_from_json(value@)->Err_0,
    {
        let name: &str = match value.get("type") {
            Some(v) => match v.as_text() {
                Some(s) => s,
                None => return Err(Error::EncodingFailure),
            },
            None => return Err(Error::EncodingFailure),
        };
        let items: &Vec<Value> = match value.get("keys") {
            Some(v) => match v.as_array() {
                Some(items) => items,
                None => return Err(Error::EncodingFailure),
            },
            None => return Err(Error::EncodingFailure),
        };
        let type_: KeyType = match KeyType::parse(name) {
            Some(t) => t,
            None => return Err(Error::UnsupportedAlgorithm),
        };
        let ghost views = spec_views(items@);
        let mut keys: Vec<(Vec<u8>, Vec<u8>)> = Vec::new();
        let mut i: usize = 0;
        proof {
            assert(views.take(0) =~= Seq::<Json>::empty());
            assert(spec_pairs(keys@) =~= Seq::<(Seq<u8>, Seq<u8>)>::empty());
        }
        while i < items.len()
            invariant
                i <= items.len(),
                views == spec_views(items@),
                value@.get("type"@) == Some(Json::Text(name@)),
                value@.get("keys"@) == Some(Json::Array(views)),
                KeyType::spec_parse(name@) == Some(type_),
                spec_read_pairs(views.take(i as int)) == Some(spec_pairs(keys@)),
            decreases items.len() - i,
        {
            let ghost before = spec_pairs(keys@);
            proof {
                assert(views.take(i + 1).drop_last() =~= views.take(i as int));
                assert(views.take(i + 1).last() == items@[i as int]@);
            }
            match read_pair(&items[i]) {
                None => {
                    proof {
                        assert(spec_read_pairs(views.take(i + 1)) is None);
                        lemma_read_pairs_prefix(views, i + 1);
                    }
                    return Err(Error::EncodingFailure);
                },
                Some(None) => {},
                Some(Some(pair)) => {
                    keys.push(pair);
                    proof {
                        assert(spec_pairs(keys@) =~= before.push(spec_read_pair(items@[i as int]@)->0->0));
                    }
                },
            }
            i += 1;
        }
        proof {
            assert(views.take(views.len() as int) =~= views);
        }
        if keys.len() == 0 {
            return Err(Error::EmptyCollection);
        }
        Ok(KeyCollection { type_, keys })
    }
}

/// Where a prefix of a list of items has an item of the wrong shape, so has
/// the list.
pub proof fn lemma_read_pairs_prefix(items: Seq<Json>, n: int)
    requires
        0 <= n <= items.len(),
        spec_read_pairs(items.take(n)) is None,
    ensures
        spec_read_pairs(items) is None,
    decreases items.len() - n,
{
    if n < items.len() {
        assert(items.take(n + 1).drop_last() =~= items.take(n));
        lemma_read_pairs_prefix(items, n + 1);
    } else {
        assert(items.take(n) =~= items);
    }
}

/// The JSON forms of a list of pairs read as that list, where every key
/// reads back from its base58 text.
pub proof fn lemma_read_keys_json(pairs: Seq<(Seq<u8>, Seq<u8>)>)
    requires
        forall|i: int|
            0 <= i < pairs.len() ==> spec_b58_round_trips((#[trigger] pairs[i]).0) && spec_b58_round_trips(
                pairs[i].1,
            ),
    ensures
        spec_read_pairs(spec_keys_json(pairs)) == Some(pairs),
    decreases pairs.len(),
{
    if pairs.len() > 0 {
        let items = spec_keys_json(pairs);
        let last = pairs.last();
        lemma_read_keys_json(pairs.drop_last());
        assert(items.drop_last() =~= spec_keys_json(pairs.drop_last()));
        assert(items.last() == spec_key_json(last));
        lemma_read_key_json(last);
        assert(pairs.drop_last().push(last) =~= pairs);
    } else {
        assert(spec_keys_json(pairs) =~= Seq::<Json>::empty());
        assert(pairs =~= Seq::<(Seq<u8>, Seq<u8>)>::empty());
    }
}

/// The JSON form of a pair reads as that pair, where both keys read back
/// from their base58 text.
pub proof fn lemma_read_key_json(pair: (Seq<u8>, Seq<u8>))
    requires
        spec_b58_round_trips(pair.0),
        spec_b58_round_trips(pair.1),
    ensures
        spec_read_pair(spec_key_json(pair)) == Some(Some(pair)),
{
    reveal_strlit("public");
    reveal_strlit("secret");
    let entries = spec_key_json(pair)->Object_0;
    assert("public"@ != "secret"@) by {
        assert("public"@[0] != "secret"@[0]);
    }
    assert(entries.drop_first()[0] == entries[1]);
    assert(crate::json::spec_get(entries, "public"@) == Some(entries[0].1));
    assert(crate::json::spec_get(entries.drop_first(), "secret"@) == Some(entries[1].1));
    assert(crate::json::spec_get(entries, "secret"@) == Some(entries[1].1));
}

/// Reading the JSON form of a collection that is not empty gives back its
/// type and the same pairs in the same order, where every key reads back
/// from its base58 text. `encode_b58` records that of every text it writes.
pub proof fn lemma_from_json_to_json(t: KeyType, pairs: Seq<(Seq<u8>, Seq<u8>)>)
    requires
        pairs.len() > 0,
        forall|i: int|
            0 <= i < pairs.len() ==> spec_b58_round_trips((#[trigger] pairs[i]).0) && spec_b58_round_trips(
                pairs[i].1,
            ),
    ensures
        spec_from_json(spec_to_json(t, pairs)) == Ok::<(KeyType, Seq<(Seq<u8>, Seq<u8>)>), Error>((t, pairs)),
{
    reveal_strlit("type");
    reveal_strlit("keys");
    let entries = spec_to_json(t, pairs)->Object_0;
    assert("type"@ != "keys"@) by {
        assert("type"@[0] != "keys"@[0]);
    }
    assert(entries.drop_first()[0] == entries[1]);
    assert(crate::json::spec_get(entries, "type"@) == Some(entries[0].1));
    assert(crate::json::spec_get(entries.drop_first(), "keys"@) == Some(entries[1].1));
    assert(crate::json::spec_get(entries, "keys"@) == Some(entries[1].1));
    lemma_read_keys_json(pairs);
}

} // verus!
