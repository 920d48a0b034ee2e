//! Merkle trees over an ordered list of leaves, and inclusion proofs.
//!
//! A leaf is hashed with the prefix `0x00`, an inner node with the prefix
//! `0x01` followed by its left and then its right child. A level with an odd
//! number of nodes pairs its last node with itself. The tree of no leaves has
//! the hash of the empty input as its root.

use vstd::prelude::*;
use crate::bytes::append_bytes;
use crate::digest::Digest;
use crate::digest;
use crate::error::Error;

verus! {

/// Prefix of the input that yields a leaf hash.
pub const LEAF_PREFIX: u8 = 0x00;

/// Prefix of the input that yields the hash of an inner node.
pub const NODE_PREFIX: u8 = 0x01;

/// Side byte of an encoded proof step whose sibling stands on the left.
pub const SIDE_LEFT: u8 = 0x00;

/// Side byte of an encoded proof step whose sibling stands on the right.
pub const SIDE_RIGHT: u8 = 0x01;

/// Hash of a leaf holding `data`.
pub open spec fn spec_leaf_hash(d: Digest, data: Seq<u8>) -> Seq<u8> {
    d.spec_hash(seq![LEAF_PREFIX] + data)
}

/// Hash of the inner node above `left` and `right`.
pub open spec fn spec_node_hash(d: Digest, left: Seq<u8>, right: Seq<u8>) -> Seq<u8> {
    d.spec_hash(seq![NODE_PREFIX] + left + right)
}

/// The leaf hashes of a list of leaves, in order.
pub open spec fn spec_leaf_hashes(d: Digest, leaves: Seq<Seq<u8>>) -> Seq<Seq<u8>> {
    Seq::new(leaves.len(), |i: int| spec_leaf_hash(d, leaves[i]))
}

/// Index of the node that `i` is paired with in a level of `len` nodes.
pub open spec fn spec_sibling(len: int, i: int) -> int {
    if i % 2 == 1 {
        i - 1
    } else if i + 1 < len {
        i + 1
    } else {
        i
    }
}

/// The level above `level`: node `i` covers nodes `2i` and `2i + 1`, the last
/// node being paired with itself where the level is odd.
pub open spec fn spec_next_level(d: Digest, level: Seq<Seq<u8>>) -> Seq<Seq<u8>> {
    Seq::new(
        ((level.len() + 1) / 2) as nat,
        |i: int| spec_node_hash(d, level[2 * i], level[spec_sibling(level.len() as int, 2 * i)]),
    )
}

/// The root above a level of node hashes.
pub open spec fn spec_root_of(d: Digest, level: Seq<Seq<u8>>) -> Seq<u8>
    decreases level.len(),
{
    if level.len() == 0 {
        d.spec_hash(Seq::empty())
    } else if level.len() == 1 {
        level[0]
    } else {
        spec_root_of(d, spec_next_level(d, level))
    }
}

/// The root of the tree over `leaves`.
pub open spec fn spec_tree_root(d: Digest, leaves: Seq<Seq<u8>>) -> Seq<u8> {
    spec_root_of(d, spec_leaf_hashes(d, leaves))
}

/// One step of an inclusion proof: the sibling's hash and the side it is on.
pub enum SpecNode {
    L(Seq<u8>),
    R(Seq<u8>),
}

/// The hash reached from `acc` by one proof step.
pub open spec fn spec_step(d: Digest, node: SpecNode, acc: Seq<u8>) -> Seq<u8> {
    match node {
        SpecNode::L(sibling) => spec_node_hash(d, sibling, acc),
        SpecNode::R(sibling) => spec_node_hash(d, acc, sibling),
    }
}

/// The step that leads from node `i` of `level` to its parent.
pub open spec fn spec_proof_step(level: Seq<Seq<u8>>, i: int) -> SpecNode {
    if i % 2 == 1 {
        SpecNode::L(level[i - 1])
    } else {
        SpecNode::R(level[spec_sibling(level.len() as int, i)])
    }
}

/// The steps from node `i` of `level` up to the root.
pub open spec fn spec_proof_of(d: Digest, level: Seq<Seq<u8>>, i: int) -> Seq<SpecNode>
    decreases level.len(),
{
    if level.len() <= 1 {
        Seq::empty()
    } else {
        seq![spec_proof_step(level, i)] + spec_proof_of(d, spec_next_level(d, level), i / 2)
    }
}

/// The inclusion proof of leaf `i` in the tree over `leaves`, if there is such
/// a leaf.
pub open spec fn spec_tree_proof(d: Digest, leaves: Seq<Seq<u8>>, i: int) -> Option<Seq<SpecNode>> {
    if 0 <= i < leaves.len() {
        Some(spec_proof_of(d, spec_leaf_hashes(d, leaves), i))
    } else {
        None
    }
}

/// The hash reached from `acc` by replaying `nodes` from first to last.
pub open spec fn spec_fold(d: Digest, nodes: Seq<SpecNode>, acc: Seq<u8>) -> Seq<u8>
    decreases nodes.len(),
{
    if nodes.len() == 0 {
        acc
    } else {
        spec_fold(d, nodes.drop_first(), spec_step(d, nodes[0], acc))
    }
}

/// Whether replaying `nodes` from `leaf_hash` reaches `root`.
pub open spec fn spec_verify(d: Digest, nodes: Seq<SpecNode>, leaf_hash: Seq<u8>, root: Seq<u8>) -> bool {
    spec_fold(d, nodes, leaf_hash) == root
}

/// The number of levels above a level of `len` nodes.
pub open spec fn spec_height(len: nat) -> nat
    decreases len,
{
    if len <= 1 {
        0
    } else {
        1 + spec_height(((len + 1) / 2) as nat)
    }
}

/// Whether every sibling hash of `nodes` has the length of `d`'s output.
pub open spec fn spec_nodes_sized(d: Digest, nodes: Seq<SpecNode>) -> bool {
    forall|k: int| 0 <= k < nodes.len() ==> spec_node_bytes(#[trigger] nodes[k]).len() == d.spec_output_size()
}

/// The sibling hash of a proof step.
pub open spec fn spec_node_bytes(node: SpecNode) -> Seq<u8> {
    match node {
        SpecNode::L(h) => h,
        SpecNode::R(h) => h,
    }
}

/// The side byte of a proof step.
pub open spec fn spec_node_side(node: SpecNode) -> u8 {
    match node {
        SpecNode::L(_) => SIDE_LEFT,
        SpecNode::R(_) => SIDE_RIGHT,
    }
}

/// The encoding of a proof: for each step its side byte, then its hash.
pub open spec fn spec_encode(nodes: Seq<SpecNode>) -> Seq<u8>
    decreases nodes.len(),
{
    if nodes.len() == 0 {
        Seq::empty()
    } else {
        seq![spec_node_side(nodes[0])] + spec_node_bytes(nodes[0]) + spec_encode(nodes.drop_first())
    }
}

/// The proof that `bytes` encodes for digest `d`, if it encodes one: a whole
/// number of steps, each with a known side byte.
pub open spec fn spec_decode(d: Digest, bytes: Seq<u8>) -> Option<Seq<SpecNode>>
    decreases bytes.len(),
{
    let size = d.spec_output_size() as int;
    if bytes.len() == 0 {
        Some(Seq::empty())
    } else if bytes.len() < 1 + size {
        None
    } else if bytes[0] != SIDE_LEFT && bytes[0] != SIDE_RIGHT {
        None
    } else {
        let hash = bytes.subrange(1, 1 + size);
        let node = if bytes[0] == SIDE_LEFT {
            SpecNode::L(hash)
        } else {
            SpecNode::R(hash)
        };
        match spec_decode(d, bytes.skip(1 + size)) {
            None => None,
            Some(rest) => Some(seq![node] + rest),
        }
    }
}

/// One step of an inclusion proof.
#[derive(Clone, Debug, PartialEq, Eq)]
pub enum Node {
    /// The sibling is the left child.
    L(digest::Hash),
    /// The sibling is the right child.
    R(digest::Hash),
}

impl View for Node {
    type V = SpecNode;

    open spec fn view(&self) -> SpecNode {
        match self {
            Node::L(h) => SpecNode::L(h@),
            Node::R(h) => SpecNode::R(h@),
        }
    }
}

/// The views of a list of hashes.
pub open spec fn spec_hashes(hashes: Seq<digest::Hash>) -> Seq<Seq<u8>> {
    Seq::new(hashes.len(), |i: int| hashes[i]@)
}

/// The views of a list of byte strings.
pub open spec fn spec_byte_strings(items: Seq<Vec<u8>>) -> Seq<Seq<u8>> {
    Seq::new(items.len(), |i: int| items[i]@)
}

/// The views of a list of proof steps.
pub open spec fn spec_nodes(nodes: Seq<Node>) -> Seq<SpecNode> {
    Seq::new(nodes.len(), |i: int| nodes[i]@)
}

/// Hashes a leaf.
pub fn leaf_hash(d: Digest, data: &[u8]) -> (h: digest::Hash)
    ensures
        h@ == spec_leaf_hash(d, data@),
        h@.len() == d.spec_output_size(),
{
    let mut input: Vec<u8> = Vec::new();
    input.push(LEAF_PREFIX);
    append_bytes(&mut input, data);
    assert(input@ =~= seq![LEAF_PREFIX] + data@);
    d.hash(input.as_slice())
}

/// Hashes an inner node from its two children, left first.
pub fn node_hash(d: Digest, left: &digest::Hash, right: &digest::Hash) -> (h: digest::Hash)
    ensures
        h@ == spec_node_hash(d, left@, right@),
        h@.len() == d.spec_output_size(),
{
    let mut input: Vec<u8> = Vec::new();
    input.push(NODE_PREFIX);
    append_bytes(&mut input, left.as_slice());
    append_bytes(&mut input, right.as_slice());
    assert(input@ =~= seq![NODE_PREFIX] + left@ + right@);
    d.hash(input.as_slice())
}

/// Whether every hash of `level` has the length of `d`'s output.
pub open spec fn spec_level_sized(d: Digest, level: Seq<Seq<u8>>) -> bool {
    forall|k: int| 0 <= k < level.len() ==> (#[trigger] level[k]).len() == d.spec_output_size()
}

fn copy_level(level: &Vec<digest::Hash>) -> (out: Vec<digest::Hash>)
    ensures
        spec_hashes(out@) == spec_hashes(level@),
{
    let mut out: Vec<digest::Hash> = Vec::new();
    let mut i: usize = 0;
    while i < level.len()
        invariant
            i <= level.len(),
            out.len() == i,
            forall|k: int| 0 <= k < i ==> out@[k]@ == level@[k]@,
        decreases level.len() - i,
    {
        out.push(level[i].copy());
        i += 1;
    }
    assert(spec_hashes(out@) =~= spec_hashes(level@));
    out
}

fn next_level(d: Digest, level: &Vec<digest::Hash>) -> (out: Vec<digest::Hash>)
    ensures
        spec_hashes(out@) == spec_next_level(d, spec_hashes(level@)),
        spec_level_sized(d, spec_hashes(out@)),
{
    let n: usize = level.len();
    let half: usize = n / 2 + n % 2;
    let mut out: Vec<digest::Hash> = Vec::new();
    let mut k: usize = 0;
    while k < half
        invariant
            n == level.len(),
            half == (n + 1) / 2,
            k <= half,
            out.len() == k,
            forall|j: int|
                0 <= j < out.len() ==> (#[trigger] out@[j])@ == spec_next_level(
                    d,
                    spec_hashes(level@),
                )[j],
            forall|j: int| 0 <= j < out.len() ==> (#[trigger] out@[j])@.len() == d.spec_output_size(),
        decreases half - k,
    {
        let i: usize = 2 * k;
        let j: usize = if i + 1 < n {
            i + 1
        } else {
            i
        };
        let h: digest::Hash = node_hash(d, &level[i], &level[j]);
        out.push(h);
        k += 1;
    }
    proof {
        assert(spec_hashes(out@) =~= spec_next_level(d, spec_hashes(level@)));
    }
    out
}

/// A Merkle tree over an ordered list of leaves. Never changed once built.
pub struct MerkleTree {
    digest: Digest,
    leaves: Vec<digest::Hash>,
    root: digest::Hash,
}

impl MerkleTree {
    #[verifier::type_invariant]
    spec fn well_formed(self) -> bool {
        &&& self.root@ == spec_root_of(self.digest, spec_hashes(self.leaves@))
        &&& self.root@.len() == self.digest.spec_output_size()
        &&& spec_level_sized(self.digest, spec_hashes(self.leaves@))
    }

    /// The hash function the tree was built with.
    pub closed spec fn spec_digest(self) -> Digest {
        self.digest
    }

    /// The leaf hashes, in order.
    pub closed spec fn spec_leaves(self) -> Seq<Seq<u8>> {
        spec_hashes(self.leaves@)
    }

    /// The root hash.
    pub closed spec fn spec_root(self) -> Seq<u8> {
        self.root@
    }

    /// Builds the tree over `leaves`, hashing each leaf first.
    pub fn build(d: Digest, leaves: &Vec<Vec<u8>>) -> (tree: MerkleTree)
        ensures
            tree.spec_digest() == d,
            tree.spec_leaves() == spec_leaf_hashes(d, spec_byte_strings(leaves@)),
            tree.spec_root() == spec_tree_root(d, spec_byte_strings(leaves@)),
    {
        let mut hashes: Vec<digest::Hash> = Vec::new();
        let mut i: usize = 0;
        while i < leaves.len()
            invariant
                i <= leaves.len(),
                hashes.len() == i,
                forall|k: int| 0 <= k < i ==> (#[trigger] hashes@[k])@ == spec_leaf_hash(d, leaves@[k]@),
                forall|k: int| 0 <= k < i ==> (#[trigger] hashes@[k])@.len() == d.spec_output_size(),
            decreases leaves.len() - i,
        {
            hashes.push(leaf_hash(d, leaves[i].as_slice()));
            i += 1;
        }
        assert(spec_hashes(hashes@) =~= spec_leaf_hashes(d, spec_byte_strings(leaves@)));
        let root: digest::Hash = root_of(d, &hashes);
        MerkleTree { digest: d, leaves: hashes, root }
    }

    /// The number of leaves.
    pub fn len(&self) -> (n: usize)
        ensures
            n == self.spec_leaves().len(),
    {
        self.leaves.len()
    }

    /// The root hash.
    pub fn root(&self) -> (h: &digest::Hash)
        ensures
            h@ == self.spec_root(),
            h@ == spec_root_of(self.spec_digest(), self.spec_leaves()),
            h@.len() == self.spec_digest().spec_output_size(),
    {
        proof {
            use_type_invariant(self);
        }
        &self.root
    }

    /// The inclusion proof of leaf `index`. Fails with `IndexOutOfRange`
    /// exactly when there is no such leaf.
    pub fn try_prove(&self, index: usize) -> (r: Result<Proof, Error>)
        ensures
            r is Ok <==> index < self.spec_leaves().len(),
            r is Ok ==> r->Ok_0@ == spec_proof_of(self.spec_digest(), self.spec_leaves(), index as int)
                && spec_nodes_sized(self.spec_digest(), r->Ok_0@),
            r is Err ==> r->Err_0 == Error::IndexOutOfRange,
    {
        match self.prove(index) {
            Some(p) => Ok(p),
            None => Err(Error::IndexOutOfRange),
        }
    }

    /// The inclusion proof of leaf `index`; none where there is no such leaf.
    pub fn prove(&self, index: usize) -> (p: Option<Proof>)
        ensures
            index >= self.spec_leaves().len() ==> p is None,
            index < self.spec_leaves().len() ==> p is Some && p->0@ == spec_proof_of(
                self.spec_digest(),
                self.spec_leaves(),
                index as int,
            ) && spec_nodes_sized(self.spec_digest(), p->0@),
    {
        proof {
            use_type_invariant(self);
        }
        prove_in(self.digest, &self.leaves, index)
    }
}

/// The root above `leaves`.
fn root_of(d: Digest, leaves: &Vec<digest::Hash>) -> (root: digest::Hash)
    requires
        spec_level_sized(d, spec_hashes(leaves@)),
    ensures
        root@ == spec_root_of(d, spec_hashes(leaves@)),
        root@.len() == d.spec_output_size(),
{
    if leaves.len() == 0 {
        let empty: Vec<u8> = Vec::new();
        assert(empty@ =~= Seq::<u8>::empty());
        return d.hash(empty.as_slice());
    }
    let mut level: Vec<digest::Hash> = copy_level(leaves);
    assert(level.len() == leaves.len()) by {
        assert(spec_hashes(level@).len() == spec_hashes(leaves@).len());
    }
    while level.len() > 1
        invariant
            level.len() >= 1,
            spec_level_sized(d, spec_hashes(level@)),
            spec_root_of(d, spec_hashes(level@)) == spec_root_of(d, spec_hashes(leaves@)),
        decreases level.len(),
    {
        let above: Vec<digest::Hash> = next_level(d, &level);
        proof {
            assert(spec_hashes(above@).len() == (level.len() + 1) / 2);
            assert(above.len() == spec_hashes(above@).len());
        }
        level = above;
    }
    proof {
        assert(spec_hashes(level@)[0] == level@[0]@);
    }
    level[0].copy()
}

/// The inclusion proof of leaf `index` among `leaves`.
fn prove_in(d: Digest, leaves: &Vec<digest::Hash>, index: usize) -> (p: Option<Proof>)
    requires
        spec_level_sized(d, spec_hashes(leaves@)),
    ensures
        index >= leaves.len() ==> p is None,
        index < leaves.len() ==> p is Some && p->0@ == spec_proof_of(
            d,
            spec_hashes(leaves@),
            index as int,
        ) && spec_nodes_sized(d, p->0@),
{
    if index >= leaves.len() {
        return None;
    }
    let mut level: Vec<digest::Hash> = copy_level(leaves);
    assert(level.len() == leaves.len()) by {
        assert(spec_hashes(level@).len() == spec_hashes(leaves@).len());
    }
    let mut i: usize = index;
    let mut nodes: Vec<Node> = Vec::new();
    assert(spec_nodes(nodes@) =~= Seq::<SpecNode>::empty());
    while level.len() > 1
        invariant
            i < level.len(),
            spec_level_sized(d, spec_hashes(level@)),
            spec_nodes_sized(d, spec_nodes(nodes@)),
            spec_nodes(nodes@) + spec_proof_of(d, spec_hashes(level@), i as int) == spec_proof_of(
                d,
                spec_hashes(leaves@),
                index as int,
            ),
        decreases level.len(),
    {
        let ghost before = spec_nodes(nodes@);
        let ghost lv = spec_hashes(level@);
        let node: Node = if i % 2 == 1 {
            Node::L(level[i - 1].copy())
        } else if i + 1 < level.len() {
            Node::R(level[i + 1].copy())
        } else {
            Node::R(level[i].copy())
        };
        proof {
            assert(node@ == spec_proof_step(lv, i as int));
            assert(lv[spec_sibling(lv.len() as int, i as int)].len() == d.spec_output_size());
            assert(spec_node_bytes(node@).len() == d.spec_output_size());
        }
        nodes.push(node);
        let above: Vec<digest::Hash> = next_level(d, &level);
        proof {
            assert(spec_hashes(above@).len() == (level.len() + 1) / 2);
            assert(above.len() == spec_hashes(above@).len());
            assert(spec_nodes(nodes@) =~= before.push(spec_proof_step(lv, i as int)));
            assert(before.push(spec_proof_step(lv, i as int)) + spec_proof_of(
                d,
                spec_hashes(above@),
                i as int / 2,
            ) =~= before + spec_proof_of(d, lv, i as int));
        }
        level = above;
        i = i / 2;
    }
    proof {
        assert(spec_proof_of(d, spec_hashes(level@), i as int) =~= Seq::<SpecNode>::empty());
        assert(spec_nodes(nodes@) + Seq::<SpecNode>::empty() =~= spec_nodes(nodes@));
    }
    Some(Proof { nodes })
}

/// An inclusion proof: the steps from a leaf up to the root.
#[derive(Clone, Debug, PartialEq, Eq)]
pub struct Proof {
    nodes: Vec<Node>,
}

impl View for Proof {
    type V = Seq<SpecNode>;

    closed spec fn view(&self) -> Seq<SpecNode> {
        spec_nodes(self.nodes@)
    }
}

impl Proof {
    /// A proof made of the given steps.
    pub fn new(nodes: Vec<Node>) -> (p: Proof)
        ensures
            p@ == spec_nodes(nodes@),
    {
        Proof { nodes }
    }

    /// The number of steps.
    pub fn len(&self) -> (n: usize)
        ensures
            n == self@.len(),
    {
        self.nodes.len()
    }

    /// The steps, leaf end first.
    pub fn nodes(&self) -> (nodes: &Vec<Node>)
        ensures
            spec_nodes(nodes@) == self@,
    {
        &self.nodes
    }

    /// Replays the proof from `leaf` and tells whether it reaches `root`.
    /// A proof that does not fit the tree yields `false`.
    pub fn verify(&self, d: Digest, leaf: &digest::Hash, root: &digest::Hash) -> (ok: bool)
        ensures
            ok == spec_verify(d, self@, leaf@, root@),
    {
        let mut acc: digest::Hash = leaf.copy();
        let mut k: usize = 0;
        assert(self@.skip(0) =~= self@);
        while k < self.nodes.len()
            invariant
                k <= self.nodes.len(),
                spec_fold(d, self@.skip(k as int), acc@) == spec_fold(d, self@, leaf@),
            decreases self.nodes.len() - k,
        {
            let ghost rest = self@.skip(k as int);
            proof {
                assert(rest[0] == self.nodes@[k as int]@);
                assert(rest.drop_first() =~= self@.skip(k + 1));
            }
            let next: digest::Hash = match &self.nodes[k] {
                Node::L(sibling) => node_hash(d, sibling, &acc),
                Node::R(sibling) => node_hash(d, &acc, sibling),
            };
            acc = next;
            k += 1;
        }
        acc.same(root)
    }

    /// The encoding of the proof: for each step its side byte, then its hash.
    pub fn encode(&self) -> (out: Vec<u8>)
        ensures
            out@ == spec_encode(self@),
    {
        let mut out: Vec<u8> = Vec::new();
        let mut k: usize = 0;
        assert(self@.skip(0) =~= self@);
        while k < self.nodes.len()
            invariant
                k <= self.nodes.len(),
                out@ + spec_encode(self@.skip(k as int)) == spec_encode(self@),
            decreases self.nodes.len() - k,
        {
            let ghost rest = self@.skip(k as int);
            let ghost before = out@;
            proof {
                assert(rest[0] == self.nodes@[k as int]@);
                assert(rest.drop_first() =~= self@.skip(k + 1));
            }
            match &self.nodes[k] {
                Node::L(h) => {
                    out.push(SIDE_LEFT);
                    append_bytes(&mut out, h.as_slice());
                },
                Node::R(h) => {
                    out.push(SIDE_RIGHT);
                    append_bytes(&mut out, h.as_slice());
                },
            }
            proof {
                assert(out@ =~= before + (seq![spec_node_side(rest[0])] + spec_node_bytes(rest[0])));
                assert(out@ + spec_encode(self@.skip(k + 1)) =~= before + spec_encode(rest));
            }
            k += 1;
        }
        proof {
            assert(out@ + Seq::<u8>::empty() =~= out@);
        }
        out
    }

    /// Reads back an encoded proof whose hashes are outputs of `d`.
    pub fn decode(d: Digest, bytes: &[u8]) -> (p: Option<Proof>)
        ensures
            p is Some <==> spec_decode(d, bytes@) is Some,
            p is Some ==> p->0@ == spec_decode(d, bytes@)->0,
    {
        let size: usize = d.output_size();
        let mut nodes: Vec<Node> = Vec::new();
        let mut pos: usize = 0;
        assert(bytes@.skip(0) =~= bytes@);
        assert(spec_nodes(nodes@) =~= Seq::<SpecNode>::empty());
        while pos < bytes.len()
            invariant
                pos <= bytes.len(),
                size == d.spec_output_size(),
                size == 32,
                spec_decode(d, bytes@) == match spec_decode(d, bytes@.skip(pos as int)) {
                    None => None::<Seq<SpecNode>>,
                    Some(rest) => Some(spec_nodes(nodes@) + rest),
                },
            decreases bytes.len() - pos,
        {
            let ghost tail = bytes@.skip(pos as int);
            let ghost before = spec_nodes(nodes@);
            if bytes.len() - pos < 1 + size {
                return None;
            }
            let side: u8 = bytes[pos];
            if side != SIDE_LEFT && side != SIDE_RIGHT {
                return None;
            }
            let hash: digest::Hash = digest::Hash::from_bytes(
                crate::bytes::copy_bytes(vstd::slice::slice_subrange(bytes, pos + 1, pos + 1 + size)),
            );
            let node: Node = if side == SIDE_LEFT {
                Node::L(hash)
            } else {
                Node::R(hash)
            };
            proof {
                assert(tail.subrange(1, 1 + size as int) =~= bytes@.subrange(
                    pos + 1,
                    pos + 1 + size as int,
                ));
                assert(tail.skip(1 + size as int) =~= bytes@.skip(pos + 1 + size as int));
            }
            nodes.push(node);
            proof {
                assert(spec_nodes(nodes@) =~= before.push(node@));
                assert forall|rest: Seq<SpecNode>| before + (seq![node@] + rest) == before.push(node@) + rest by {
                    assert(before + (seq![node@] + rest) =~= before.push(node@) + rest);
                }
            }
            pos = pos + 1 + size;
        }
        proof {
            assert(spec_nodes(nodes@) + Seq::<SpecNode>::empty() =~= spec_nodes(nodes@));
        }
        Some(Proof { nodes })
    }
}

/// Replaying the inclusion proof of node `i` from that node's hash reaches
/// the root above the level.
pub proof fn lemma_level_proof_verifies(d: Digest, level: Seq<Seq<u8>>, i: int)
    requires
        0 <= i < level.len(),
    ensures
        spec_verify(d, spec_proof_of(d, level, i), level[i], spec_root_of(d, level)),
    decreases level.len(),
{
    if level.len() > 1 {
        let above = spec_next_level(d, level);
        let steps = spec_proof_of(d, level, i);
        lemma_level_proof_verifies(d, above, i / 2);
        assert(steps.drop_first() =~= spec_proof_of(d, above, i / 2));
        assert(spec_step(d, steps[0], level[i]) == above[i / 2]);
    }
}

/// For every tree with at least one leaf and every index of a leaf, the
/// proof of that leaf verifies against the leaf's hash and the tree's root.
pub proof fn lemma_tree_proof_verifies(d: Digest, leaves: Seq<Seq<u8>>, i: int)
    requires
        0 <= i < leaves.len(),
    ensures
        spec_tree_proof(d, leaves, i) is Some,
        spec_verify(
            d,
            spec_tree_proof(d, leaves, i)->0,
            spec_leaf_hash(d, leaves[i]),
            spec_tree_root(d, leaves),
        ),
{
    lemma_level_proof_verifies(d, spec_leaf_hashes(d, leaves), i);
}

/// No index at or beyond the number of leaves has a proof.
pub proof fn lemma_no_proof_out_of_range(d: Digest, leaves: Seq<Seq<u8>>, i: int)
    requires
        i >= leaves.len(),
    ensures
        spec_tree_proof(d, leaves, i) is None,
{
}

/// A proof has as many steps as there are levels above the leaves.
pub proof fn lemma_proof_length(d: Digest, level: Seq<Seq<u8>>, i: int)
    ensures
        spec_proof_of(d, level, i).len() == spec_height(level.len()),
    decreases level.len(),
{
    if level.len() > 1 {
        lemma_proof_length(d, spec_next_level(d, level), i / 2);
    }
}

/// Decoding the encoding of a proof whose hashes are outputs of `d` gives the
/// proof back.
pub proof fn lemma_decode_encode(d: Digest, nodes: Seq<SpecNode>)
    requires
        spec_nodes_sized(d, nodes),
    ensures
        spec_decode(d, spec_encode(nodes)) == Some(nodes),
    decreases nodes.len(),
{
    if nodes.len() > 0 {
        let size = d.spec_output_size() as int;
        let bytes = spec_encode(nodes);
        let rest = nodes.drop_first();
        lemma_decode_encode(d, rest);
        assert(spec_node_bytes(nodes[0]).len() == size);
        assert(bytes.subrange(1, 1 + size) =~= spec_node_bytes(nodes[0]));
        assert(bytes.skip(1 + size) =~= spec_encode(rest));
        assert(seq![nodes[0]] + rest =~= nodes);
    }
}

} // verus!
