//! The ratchet tree: a left-balanced binary tree whose even nodes are the
//! members' leaves and whose odd nodes are parents.

use vstd::prelude::*;
use crate::codec::{enc_u32s, enc_vec, encode_u32s, encode_vector, vec_fits, CodecError};
use crate::crypto::CryptoProvider;
use crate::types::{Ciphersuite, CryptoError, HashType};

verus! {

/// What a leaf holds, as values.
pub struct LeafNodeView {
    pub encryption_key: Seq<u8>,
    pub signature_key: Seq<u8>,
    pub credential: Seq<u8>,
    pub parent_hash: Seq<u8>,
    pub signature: Seq<u8>,
}

/// What a parent holds, as values.
pub struct ParentNodeView {
    pub encryption_key: Seq<u8>,
    pub parent_hash: Seq<u8>,
    pub unmerged_leaves: Seq<u32>,
}

/// What a node holds, as values.
pub enum NodeView {
    Leaf(LeafNodeView),
    Parent(ParentNodeView),
}

/// A member's leaf: its encryption key, signature key and credential, the
/// parent hash that links it to its parent, and the member's signature over
/// the rest.
#[derive(Debug)]
pub struct LeafNode {
    pub encryption_key: Vec<u8>,
    pub signature_key: Vec<u8>,
    pub credential: Vec<u8>,
    pub parent_hash: Vec<u8>,
    pub signature: Vec<u8>,
}

/// An inner node: its encryption key, parent hash and unmerged leaves.
#[derive(Debug)]
pub struct ParentNode {
    pub encryption_key: Vec<u8>,
    pub parent_hash: Vec<u8>,
    pub unmerged_leaves: Vec<u32>,
}

/// A populated slot of the tree.
#[derive(Debug)]
pub enum Node {
    LeafNode(LeafNode),
    ParentNode(ParentNode),
}

/// A member as listed by the tree: its leaf index and what its leaf holds.
#[derive(Debug)]
pub struct Member {
    pub index: u32,
    pub encryption_key: Vec<u8>,
    pub signature_key: Vec<u8>,
    pub credential: Vec<u8>,
}

impl View for LeafNode {
    type V = LeafNodeView;

    open spec fn view(&self) -> LeafNodeView {
        LeafNodeView {
            encryption_key: self.encryption_key@,
            signature_key: self.signature_key@,
            credential: self.credential@,
            parent_hash: self.parent_hash@,
            signature: self.signature@,
        }
    }
}

impl View for ParentNode {
    type V = ParentNodeView;

    open spec fn view(&self) -> ParentNodeView {
        ParentNodeView {
            encryption_key: self.encryption_key@,
            parent_hash: self.parent_hash@,
            unmerged_leaves: self.unmerged_leaves@,
        }
    }
}

impl View for Node {
    type V = NodeView;

    open spec fn view(&self) -> NodeView {
        match self {
            Node::LeafNode(l) => NodeView::Leaf(l@),
            Node::ParentNode(p) => NodeView::Parent(p@),
        }
    }
}

impl View for Member {
    type V = (u32, Seq<u8>, Seq<u8>, Seq<u8>);

    open spec fn view(&self) -> (u32, Seq<u8>, Seq<u8>, Seq<u8>) {
        (self.index, self.encryption_key@, self.signature_key@, self.credential@)
    }
}

/// The view of an optional node.
pub open spec fn opt_node_view(o: Option<Node>) -> Option<NodeView> {
    match o {
        Some(n) => Some(n@),
        None => None,
    }
}

/// Copies a byte string.
pub fn copy_bytes(v: &Vec<u8>) -> (r: Vec<u8>)
    ensures
        r@ == v@,
{
    let r = v.clone();
    proof {
        assert(r@ =~= v@);
    }
    r
}

/// Copies a list of leaf indices.
pub fn copy_indices(v: &Vec<u32>) -> (r: Vec<u32>)
    ensures
        r@ == v@,
{
    let r = v.clone();
    proof {
        assert(r@ =~= v@);
    }
    r
}

impl LeafNode {
    /// A copy of this leaf.
    pub fn duplicate(&self) -> (r: LeafNode)
        ensures
            r@ == self@,
    {
        LeafNode {
            encryption_key: copy_bytes(&self.encryption_key),
            signature_key: copy_bytes(&self.signature_key),
            credential: copy_bytes(&self.credential),
            parent_hash: copy_bytes(&self.parent_hash),
            signature: copy_bytes(&self.signature),
        }
    }
}

impl ParentNode {
    /// A copy of this parent.
    pub fn duplicate(&self) -> (r: ParentNode)
        ensures
            r@ == self@,
    {
        ParentNode {
            encryption_key: copy_bytes(&self.encryption_key),
            parent_hash: copy_bytes(&self.parent_hash),
            unmerged_leaves: copy_indices(&self.unmerged_leaves),
        }
    }
}

impl Node {
    /// A copy of this node.
    pub fn duplicate(&self) -> (r: Node)
        ensures
            r@ == self@,
    {
        match self {
            Node::LeafNode(l) => Node::LeafNode(l.duplicate()),
            Node::ParentNode(p) => Node::ParentNode(p.duplicate()),
        }
    }
}

/// A copy of an optional node.
pub fn duplicate_opt_node(o: &Option<Node>) -> (r: Option<Node>)
    ensures
        opt_node_view(r) == opt_node_view(*o),
{
    match o {
        Some(n) => Some(n.duplicate()),
        None => None,
    }
}

// ---------------------------------------------------------------------------
// Encoding of nodes

/// The part of a leaf that its member signs.
pub open spec fn enc_leaf_tbs(l: LeafNodeView) -> Seq<u8> {
    enc_vec(l.encryption_key) + enc_vec(l.signature_key) + enc_vec(l.credential) + enc_vec(
        l.parent_hash,
    )
}

/// A leaf as it enters the tree hash: the signed part, then the signature.
pub open spec fn enc_leaf(l: LeafNodeView) -> Seq<u8> {
    enc_leaf_tbs(l) + enc_vec(l.signature)
}

/// A parent as it enters the tree hash.
pub open spec fn enc_parent(p: ParentNodeView) -> Seq<u8> {
    enc_vec(p.encryption_key) + enc_vec(p.parent_hash) + enc_vec(enc_u32s(p.unmerged_leaves))
}

/// A node as it enters the tree hash.
pub open spec fn enc_node(n: NodeView) -> Seq<u8> {
    match n {
        NodeView::Leaf(l) => enc_leaf(l),
        NodeView::Parent(p) => enc_parent(p),
    }
}

/// An optional node: a presence byte, then the node.
pub open spec fn enc_opt_node(o: Option<NodeView>) -> Seq<u8> {
    match o {
        None => seq![0u8],
        Some(n) => seq![1u8] + enc_node(n),
    }
}

/// Whether every vector of the node can be encoded.
pub open spec fn node_fits(n: NodeView) -> bool {
    match n {
        NodeView::Leaf(l) => vec_fits(l.encryption_key) && vec_fits(l.signature_key) && vec_fits(
            l.credential,
        ) && vec_fits(l.parent_hash) && vec_fits(l.signature),
        NodeView::Parent(p) => vec_fits(p.encryption_key) && vec_fits(p.parent_hash) && vec_fits(
            enc_u32s(p.unmerged_leaves),
        ),
    }
}

/// Whether an optional node can be encoded.
pub open spec fn opt_node_fits(o: Option<NodeView>) -> bool {
    match o {
        None => true,
        Some(n) => node_fits(n),
    }
}

/// Appends `b` to `out`.
fn append_bytes(out: &mut Vec<u8>, b: Vec<u8>)
    ensures
        final(out)@ == old(out)@ + b@,
{
    let mut b = b;
    out.append(&mut b);
}

/// Encodes a leaf.
pub fn encode_leaf(l: &LeafNode) -> (r: Result<Vec<u8>, CodecError>)
    ensures
        r is Ok <==> node_fits(NodeView::Leaf(l@)),
        r is Ok ==> r->Ok_0@ == enc_leaf(l@),
{
    let mut out = encode_leaf_tbs(l)?;
    let b = encode_vector(l.signature.as_slice())?;
    append_bytes(&mut out, b);
    Ok(out)
}

/// Encodes the part of a leaf that its member signs.
pub fn encode_leaf_tbs(l: &LeafNode) -> (r: Result<Vec<u8>, CodecError>)
    ensures
        r is Ok <==> (vec_fits(l.encryption_key@) && vec_fits(l.signature_key@) && vec_fits(
            l.credential@,
        ) && vec_fits(l.parent_hash@)),
        r is Ok ==> r->Ok_0@ == enc_leaf_tbs(l@),
{
    let mut out = encode_vector(l.encryption_key.as_slice())?;
    let b = encode_vector(l.signature_key.as_slice())?;
    append_bytes(&mut out, b);
    let b = encode_vector(l.credential.as_slice())?;
    append_bytes(&mut out, b);
    let b = encode_vector(l.parent_hash.as_slice())?;
    append_bytes(&mut out, b);
    Ok(out)
}

/// Encodes a parent.
pub fn encode_parent(p: &ParentNode) -> (r: Result<Vec<u8>, CodecError>)
    ensures
        r is Ok <==> node_fits(NodeView::Parent(p@)),
        r is Ok ==> r->Ok_0@ == enc_parent(p@),
{
    let mut out = encode_vector(p.encryption_key.as_slice())?;
    let b = encode_vector(p.parent_hash.as_slice())?;
    append_bytes(&mut out, b);
    let unmerged = encode_u32s(p.unmerged_leaves.as_slice());
    let b = encode_vector(unmerged.as_slice())?;
    append_bytes(&mut out, b);
    Ok(out)
}

/// Encodes an optional node.
pub fn encode_opt_node(o: &Option<Node>) -> (r: Result<Vec<u8>, CodecError>)
    ensures
        r is Ok <==> opt_node_fits(opt_node_view(*o)),
        r is Ok ==> r->Ok_0@ == enc_opt_node(opt_node_view(*o)),
{
    match o {
        None => Ok(vec![0u8]),
        Some(n) => {
            let mut out = vec![1u8];
            let b = match n {
                Node::LeafNode(l) => encode_leaf(l)?,
                Node::ParentNode(p) => encode_parent(p)?,
            };
            append_bytes(&mut out, b);
            Ok(out)
        },
    }
}

// ---------------------------------------------------------------------------
// Shape of the tree

/// Whether `n` is a power of two.
pub open spec fn is_pow2(n: nat) -> bool
    decreases n,
{
    if n <= 1 {
        n == 1
    } else {
        n % 2 == 0 && is_pow2(n / 2)
    }
}

/// The largest number of nodes a tree may have, so that leaf indices fit
/// in 32 bits with room to grow.
pub const MAX_NODES: usize = 0x3fff_ffff;

/// Whether a list of optional nodes forms a ratchet tree: `2n - 1` slots
/// for a power of two `n`, leaves at even slots, parents at odd ones, and
/// each unmerged leaf inside the tree.
pub open spec fn nodes_well_formed(nodes: Seq<Option<NodeView>>) -> bool {
    &&& nodes.len() % 2 == 1
    &&& nodes.len() <= MAX_NODES
    &&& is_pow2(((nodes.len() + 1) / 2) as nat)
    &&& forall|i: int|
        0 <= i < nodes.len() && #[trigger] nodes[i] is Some ==> (nodes[i]->Some_0 is Leaf <==> i
            % 2 == 0)
    &&& forall|i: int, j: int|
        0 <= i < nodes.len() && nodes[i] is Some && #[trigger] nodes[i]->Some_0 is Parent && 0 <= j
            < nodes[i]->Some_0->Parent_0.unmerged_leaves.len() ==> #[trigger] nodes[i]->Some_0->Parent_0.unmerged_leaves[j]
            < (nodes.len() + 1) / 2
}

/// The leaf at index `i` of a node list, if it is populated.
pub open spec fn leaf_at(nodes: Seq<Option<NodeView>>, i: int) -> Option<LeafNodeView> {
    if 0 <= 2 * i < nodes.len() && nodes[2 * i] is Some && nodes[2 * i]->Some_0 is Leaf {
        Some(nodes[2 * i]->Some_0->Leaf_0)
    } else {
        None
    }
}

/// The members of the first `k` leaves, in leaf order.
pub open spec fn members_upto(nodes: Seq<Option<NodeView>>, k: nat) -> Seq<(u32, Seq<u8>, Seq<u8>, Seq<u8>)>
    decreases k,
{
    if k == 0 {
        Seq::empty()
    } else {
        let prev = members_upto(nodes, (k - 1) as nat);
        match leaf_at(nodes, k - 1) {
            Some(l) => prev.push(((k - 1) as u32, l.encryption_key, l.signature_key, l.credential)),
            None => prev,
        }
    }
}

/// The first blank leaf at or after `i`, or `n` where leaves `i` to `n - 1`
/// are all populated.
pub open spec fn first_blank_from(nodes: Seq<Option<NodeView>>, i: nat, n: nat) -> nat
    decreases n - i,
{
    if i >= n {
        n
    } else if leaf_at(nodes, i as int) is None {
        i
    } else {
        first_blank_from(nodes, i + 1, n)
    }
}

/// The leftmost blank leaf of a tree, or its leaf count where it is full.
pub open spec fn spec_free_leaf(nodes: Seq<Option<NodeView>>) -> nat {
    first_blank_from(nodes, 0, ((nodes.len() + 1) / 2) as nat)
}

/// The ratchet tree of a group.
#[derive(Debug)]
pub struct TreeSync {
    nodes: Vec<Option<Node>>,
}

/// Errors of the ratchet tree.
#[derive(Debug, PartialEq, Eq, Clone, Copy, Structural)]
pub enum TreeSyncError {
    /// The nodes do not form a ratchet tree.
    MalformedTree,
    /// The tree cannot grow any further.
    TooLarge,
    /// A node could not be encoded.
    Encoding(CodecError),
    /// The provider failed.
    Crypto(CryptoError),
    /// A leaf's credential is empty.
    MalformedCredential,
    /// A leaf's signature does not verify under its own signature key.
    InvalidLeafSignature,
    /// A parent is not linked to either of its children by its parent hash.
    ParentHashMismatch,
}

/// Whether every node can be encoded.
pub open spec fn all_nodes_fit(nodes: Seq<Option<NodeView>>) -> bool {
    forall|i: int| 0 <= i < nodes.len() ==> opt_node_fits(#[trigger] nodes[i])
}

/// Whether every populated leaf has a credential.
pub open spec fn credentials_ok(nodes: Seq<Option<NodeView>>) -> bool {
    forall|i: int| #[trigger] leaf_at(nodes, i) is Some ==> leaf_at(nodes, i)->Some_0.credential.len() > 0
}

/// Whether a leaf's signature verifies under its own signature key.
pub open spec fn leaf_signature_ok<P: CryptoProvider>(p: P, cs: Ciphersuite, l: LeafNodeView) -> bool {
    p.signature_ok(cs.spec_signature_algorithm(), l.signature_key, enc_leaf_tbs(l), l.signature)
}

/// Whether every populated leaf's signature verifies.
pub open spec fn signatures_ok<P: CryptoProvider>(p: P, cs: Ciphersuite, nodes: Seq<Option<NodeView>>) -> bool {
    forall|i: int| #[trigger] leaf_at(nodes, i) is Some ==> leaf_signature_ok(p, cs, leaf_at(nodes, i)->Some_0)
}

/// The parent hash that a parent hands down to a child: the hash of its
/// encryption key and its own parent hash.
pub open spec fn parent_hash_of<P: CryptoProvider>(p: P, alg: HashType, n: ParentNodeView) -> Seq<u8> {
    p.digest(alg, enc_vec(n.encryption_key) + enc_vec(n.parent_hash))
}

/// The parent hash that a node carries.
pub open spec fn carried_parent_hash(n: NodeView) -> Seq<u8> {
    match n {
        NodeView::Leaf(l) => l.parent_hash,
        NodeView::Parent(q) => q.parent_hash,
    }
}

/// Whether the node at slot `c` carries `h` as its parent hash.
pub open spec fn carries(nodes: Seq<Option<NodeView>>, c: int, h: Seq<u8>) -> bool {
    nodes[c] is Some && carried_parent_hash(nodes[c]->Some_0) == h
}

/// Whether, in the subtree under slot `x` (children `half` away), every
/// populated parent has a child that carries its parent hash.
pub open spec fn chain_ok<P: CryptoProvider>(
    p: P,
    alg: HashType,
    nodes: Seq<Option<NodeView>>,
    x: int,
    half: nat,
) -> bool
    decreases half,
{
    if half == 0 {
        true
    } else {
        &&& (nodes[x] is None || !(nodes[x]->Some_0 is Parent) || carries(
            nodes,
            x - half,
            parent_hash_of(p, alg, nodes[x]->Some_0->Parent_0),
        ) || carries(nodes, x + half, parent_hash_of(p, alg, nodes[x]->Some_0->Parent_0)))
        &&& chain_ok(p, alg, nodes, x - half, half / 2)
        &&& chain_ok(p, alg, nodes, x + half, half / 2)
    }
}

/// Whether the whole tree's parent-hash links hold.
pub open spec fn tree_chain_ok<P: CryptoProvider>(p: P, alg: HashType, nodes: Seq<Option<NodeView>>) -> bool {
    chain_ok(p, alg, nodes, root_slot(nodes.len()), root_half(nodes.len()))
}

impl TreeSync {
    /// The nodes of the tree, as values.
    pub closed spec fn view_nodes(&self) -> Seq<Option<NodeView>> {
        self.nodes@.map_values(|o: Option<Node>| opt_node_view(o))
    }

    /// Whether the tree is well formed.
    pub open spec fn wf(&self) -> bool {
        nodes_well_formed(self.view_nodes())
    }

    /// The number of leaf slots.
    pub open spec fn spec_leaf_count(&self) -> nat {
        ((self.view_nodes().len() + 1) / 2) as nat
    }

    /// Builds a tree from its nodes, checking its shape.
    #[verifier::loop_isolation(false)]
    fn from_shape(nodes: Vec<Option<Node>>) -> (r: Result<TreeSync, TreeSyncError>)
        ensures
            r is Ok <==> nodes_well_formed(nodes@.map_values(|o: Option<Node>| opt_node_view(o))),
            r is Ok ==> r->Ok_0.view_nodes() == nodes@.map_values(
                |o: Option<Node>| opt_node_view(o),
            ),
            r is Err ==> r->Err_0 == TreeSyncError::MalformedTree,
    {
        let ghost v = nodes@.map_values(|o: Option<Node>| opt_node_view(o));
        let len = nodes.len();
        if len % 2 != 1 || len > MAX_NODES {
            return Err(TreeSyncError::MalformedTree);
        }
        let leaves = (len + 1) / 2;
        if !check_pow2(leaves) {
            return Err(TreeSyncError::MalformedTree);
        }
        let mut i: usize = 0;
        while i < len
            invariant
                len == nodes@.len(),
                v == nodes@.map_values(|o: Option<Node>| opt_node_view(o)),
                leaves == (len + 1) / 2,
                i <= len,
                forall|k: int|
                    0 <= k < i && #[trigger] v[k] is Some ==> (v[k]->Some_0 is Leaf <==> k % 2
                        == 0),
                forall|k: int, j: int|
                    0 <= k < i && v[k] is Some && #[trigger] v[k]->Some_0 is Parent && 0 <= j
                        < v[k]->Some_0->Parent_0.unmerged_leaves.len() ==> #[trigger] v[k]->Some_0->Parent_0.unmerged_leaves[j]
                        < leaves,
            decreases len - i,
        {
            match &nodes[i] {
                None => {},
                Some(Node::LeafNode(_)) => {
                    if i % 2 != 0 {
                        assert(v[i as int]->Some_0 is Leaf);
                        return Err(TreeSyncError::MalformedTree);
                    }
                },
                Some(Node::ParentNode(p)) => {
                    if i % 2 == 0 {
                        assert(v[i as int]->Some_0 is Parent);
                        return Err(TreeSyncError::MalformedTree);
                    }
                    let mut j: usize = 0;
                    while j < p.unmerged_leaves.len()
                        invariant
                            j <= p.unmerged_leaves@.len(),
                            i < v.len(),
                            v.len() == len,
                            v[i as int] == Some(NodeView::Parent(p@)),
                            forall|m: int| 0 <= m < j ==> #[trigger] p.unmerged_leaves@[m] < leaves,
                        decreases p.unmerged_leaves@.len() - j,
                    {
                        if p.unmerged_leaves[j] as usize >= leaves {
                            proof {
                                let k = i as int;
                                let m = j as int;
                                assert(v[k] is Some && v[k]->Some_0 is Parent);
                                assert(v[k]->Some_0->Parent_0.unmerged_leaves[m] >= (v.len() + 1) / 2);
                                assert(!nodes_well_formed(v));
                            }
                            return Err(TreeSyncError::MalformedTree);
                        }
                        j = j + 1;
                    }
                },
            }
            i = i + 1;
        }
        Ok(TreeSync { nodes })
    }

    /// The slots of the tree, in order.
    pub fn nodes(&self) -> (r: &Vec<Option<Node>>)
        ensures
            r@.map_values(|o: Option<Node>| opt_node_view(o)) == self.view_nodes(),
    {
        &self.nodes
    }

    /// The number of leaf slots of the tree.
    pub fn leaf_count(&self) -> (r: u32)
        requires
            self.wf(),
        ensures
            r == self.spec_leaf_count(),
    {
        ((self.nodes.len() + 1) / 2) as u32
    }

    /// The leaf at `index`; a blank slot or an index beyond the tree gives
    /// none.
    pub fn leaf(&self, index: u32) -> (r: Option<&LeafNode>)
        requires
            self.wf(),
        ensures
            match r {
                Some(l) => leaf_at(self.view_nodes(), index as int) == Some(l@),
                None => leaf_at(self.view_nodes(), index as int) is None,
            },
    {
        let ghost v = self.view_nodes();
        let n = self.nodes.len();
        if index as usize >= (n + 1) / 2 {
            return None;
        }
        let slot = 2 * (index as usize);
        assert(v[slot as int] == opt_node_view(self.nodes@[slot as int]));
        match &self.nodes[slot] {
            Some(Node::LeafNode(l)) => Some(l),
            _ => None,
        }
    }

    /// The leftmost blank leaf; where every leaf is populated, the index one
    /// past the last leaf, at which the tree grows.
    pub fn free_leaf_index(&self) -> (r: u32)
        requires
            self.wf(),
        ensures
            r <= self.spec_leaf_count(),
            forall|j: int| 0 <= j < r ==> #[trigger] leaf_at(self.view_nodes(), j) is Some,
            r < self.spec_leaf_count() ==> leaf_at(self.view_nodes(), r as int) is None,
            r == spec_free_leaf(self.view_nodes()),
    {
        let ghost v = self.view_nodes();
        let leaves = (self.nodes.len() + 1) / 2;
        let mut i: usize = 0;
        while i < leaves
            invariant
                v == self.view_nodes(),
                nodes_well_formed(v),
                leaves == (v.len() + 1) / 2,
                i <= leaves,
                forall|j: int| 0 <= j < i ==> #[trigger] leaf_at(v, j) is Some,
                spec_free_leaf(v) == first_blank_from(v, i as nat, leaves as nat),
            decreases leaves - i,
        {
            assert(v[2 * i as int] == opt_node_view(self.nodes@[2 * i as int]));
            match &self.nodes[2 * i] {
                Some(_) => {
                    assert(v[2 * i as int]->Some_0 is Leaf);
                },
                None => {
                    return i as u32;
                },
            }
            i = i + 1;
        }
        i as u32
    }

    /// The populated leaves with their indices, in leaf order.
    pub fn full_leaf_members(&self) -> (r: Vec<Member>)
        requires
            self.wf(),
        ensures
            r@.map_values(|m: Member| m@) == members_upto(
                self.view_nodes(),
                self.spec_leaf_count(),
            ),
    {
        let ghost v = self.view_nodes();
        let leaves = (self.nodes.len() + 1) / 2;
        let mut out: Vec<Member> = Vec::new();
        let mut i: usize = 0;
        while i < leaves
            invariant
                v == self.view_nodes(),
                nodes_well_formed(v),
                leaves == (v.len() + 1) / 2,
                i <= leaves,
                out@.map_values(|m: Member| m@) == members_upto(v, i as nat),
            decreases leaves - i,
        {
            assert(v[2 * i as int] == opt_node_view(self.nodes@[2 * i as int]));
            match &self.nodes[2 * i] {
                Some(Node::LeafNode(l)) => {
                    let m = Member {
                        index: i as u32,
                        encryption_key: copy_bytes(&l.encryption_key),
                        signature_key: copy_bytes(&l.signature_key),
                        credential: copy_bytes(&l.credential),
                    };
                    out.push(m);
                    assert(out@.map_values(|m: Member| m@) =~= members_upto(v, (i + 1) as nat));
                },
                _ => {
                    assert(out@.map_values(|m: Member| m@) =~= members_upto(v, (i + 1) as nat));
                },
            }
            i = i + 1;
        }
        out
    }

    /// A copy of the tree.
    pub fn duplicate(&self) -> (r: TreeSync)
        ensures
            r.view_nodes() == self.view_nodes(),
    {
        let mut out: Vec<Option<Node>> = Vec::new();
        let mut i: usize = 0;
        while i < self.nodes.len()
            invariant
                i <= self.nodes@.len(),
                out@.len() == i,
                forall|k: int|
                    0 <= k < i ==> opt_node_view(#[trigger] out@[k]) == opt_node_view(
                        self.nodes@[k],
                    ),
            decreases self.nodes@.len() - i,
        {
            out.push(duplicate_opt_node(&self.nodes[i]));
            i = i + 1;
        }
        let r = TreeSync { nodes: out };
        assert(r.view_nodes() =~= self.view_nodes());
        r
    }
}

// ---------------------------------------------------------------------------
// Tree hash

/// The hash of the subtree whose root is slot `x` and whose children stand
/// `half` slots away on either side; a leaf has `half == 0`. A leaf hashes
/// `{1, leaf}`, a parent `{2, parent, left hash, right hash}`.
pub open spec fn subtree_hash<P: CryptoProvider>(
    p: P,
    alg: HashType,
    nodes: Seq<Option<NodeView>>,
    x: int,
    half: nat,
) -> Seq<u8>
    decreases half,
{
    if half == 0 {
        p.digest(alg, seq![1u8] + enc_opt_node(nodes[x]))
    } else {
        let left = subtree_hash(p, alg, nodes, x - half, half / 2);
        let right = subtree_hash(p, alg, nodes, x + half, half / 2);
        p.digest(alg, seq![2u8] + enc_opt_node(nodes[x]) + enc_vec(left) + enc_vec(right))
    }
}

/// The root slot of a tree of `len` slots.
pub open spec fn root_slot(len: nat) -> int {
    (len + 1) / 2 - 1
}

/// The distance from the root to its children in a tree of `len` slots.
pub open spec fn root_half(len: nat) -> nat {
    ((len + 1) / 2 / 2) as nat
}

/// The tree hash: the hash of the subtree under the root.
pub open spec fn tree_hash_of<P: CryptoProvider>(
    p: P,
    alg: HashType,
    nodes: Seq<Option<NodeView>>,
) -> Seq<u8> {
    subtree_hash(p, alg, nodes, root_slot(nodes.len()), root_half(nodes.len()))
}

/// Subtrees whose slots encode the same way hash the same way.
pub proof fn lemma_subtree_hash_depends_on_encodings<P: CryptoProvider>(
    p: P,
    alg: HashType,
    a: Seq<Option<NodeView>>,
    b: Seq<Option<NodeView>>,
    x: int,
    half: nat,
)
    requires
        a.len() == b.len(),
        forall|i: int| 0 <= i < a.len() ==> enc_opt_node(#[trigger] a[i]) == enc_opt_node(b[i]),
        0 <= x - 2 * half + 1,
        0 <= x < a.len(),
        x + 2 * half - 1 < a.len(),
    ensures
        subtree_hash(p, alg, a, x, half) == subtree_hash(p, alg, b, x, half),
    decreases half,
{
    assert(enc_opt_node(a[x]) == enc_opt_node(b[x]));
    if half > 0 {
        lemma_subtree_hash_depends_on_encodings(p, alg, a, b, x - half, half / 2);
        lemma_subtree_hash_depends_on_encodings(p, alg, a, b, x + half, half / 2);
    }
}

/// Two members whose trees hold, slot by slot, nodes with the same encoding
/// compute byte-identical tree hashes.
pub proof fn lemma_tree_hash_deterministic<P: CryptoProvider>(
    p: P,
    alg: HashType,
    t1: TreeSync,
    t2: TreeSync,
)
    requires
        t1.wf(),
        t2.wf(),
        t1.view_nodes().len() == t2.view_nodes().len(),
        forall|i: int|
            0 <= i < t1.view_nodes().len() ==> enc_opt_node(#[trigger] t1.view_nodes()[i])
                == enc_opt_node(t2.view_nodes()[i]),
    ensures
        tree_hash_of(p, alg, t1.view_nodes()) == tree_hash_of(p, alg, t2.view_nodes()),
{
    let len = t1.view_nodes().len();
    lemma_pow2_half(((len + 1) / 2) as nat);
    lemma_subtree_hash_depends_on_encodings(
        p,
        alg,
        t1.view_nodes(),
        t2.view_nodes(),
        root_slot(len),
        root_half(len),
    );
}

/// A power of two is one or twice its half, and that half is a power of two.
pub proof fn lemma_pow2_half(n: nat)
    requires
        is_pow2(n),
    ensures
        n == 1 || (n == 2 * (n / 2) && is_pow2(n / 2)),
{
}

impl TreeSync {
    /// Hashes the subtree under slot `x`.
    fn subtree_hash_exec<P: CryptoProvider>(
        &self,
        provider: &P,
        alg: HashType,
        x: usize,
        half: usize,
    ) -> (r: Result<Vec<u8>, TreeSyncError>)
        requires
            self.wf(),
            x < self.view_nodes().len(),
            x + 1 >= 2 * half,
            x + 2 * half < self.view_nodes().len() + 1,
            half == 0 || is_pow2(half as nat),
        ensures
            r is Ok ==> r->Ok_0@ == subtree_hash(*provider, alg, self.view_nodes(), x as int, half as nat),
            r is Ok ==> r->Ok_0@.len() == alg.spec_size(),
            r is Err ==> (r->Err_0 is Crypto || !all_nodes_fit(self.view_nodes())),
        decreases half,
    {
        let ghost v = self.view_nodes();
        assert(v[x as int] == opt_node_view(self.nodes@[x as int]));
        let tag: u8 = if half == 0 { 1 } else { 2 };
        let mut input: Vec<u8> = Vec::new();
        input.push(tag);
        assert(input@ =~= seq![tag]);
        let node = match encode_opt_node(&self.nodes[x]) {
            Ok(b) => b,
            Err(e) => return Err(TreeSyncError::Encoding(e)),
        };
        append_bytes(&mut input, node);
        if half > 0 {
            proof {
                lemma_pow2_half(half as nat);
            }
            let left = self.subtree_hash_exec(provider, alg, x - half, half / 2)?;
            let right = self.subtree_hash_exec(provider, alg, x + half, half / 2)?;
            let l = match encode_vector(left.as_slice()) {
                Ok(b) => b,
                Err(e) => return Err(TreeSyncError::Encoding(e)),
            };
            append_bytes(&mut input, l);
            let rt = match encode_vector(right.as_slice()) {
                Ok(b) => b,
                Err(e) => return Err(TreeSyncError::Encoding(e)),
            };
            append_bytes(&mut input, rt);
            assert(input@ == seq![2u8] + enc_opt_node(v[x as int]) + enc_vec(left@) + enc_vec(right@));
        } else {
            assert(input@ == seq![1u8] + enc_opt_node(v[x as int]));
        }
        match provider.hash(alg, input.as_slice()) {
            Ok(h) => Ok(h),
            Err(e) => Err(TreeSyncError::Crypto(e)),
        }
    }

    /// The tree hash under `alg`.
    pub fn tree_hash<P: CryptoProvider>(&self, provider: &P, alg: HashType) -> (r: Result<
        Vec<u8>,
        TreeSyncError,
    >)
        requires
            self.wf(),
        ensures
            r is Ok ==> r->Ok_0@ == tree_hash_of(*provider, alg, self.view_nodes()),
            r is Ok ==> r->Ok_0@.len() == alg.spec_size(),
            r is Err ==> (r->Err_0 is Crypto || !all_nodes_fit(self.view_nodes())),
    {
        let leaves = (self.nodes.len() + 1) / 2;
        proof {
            lemma_pow2_half(leaves as nat);
        }
        self.subtree_hash_exec(provider, alg, leaves - 1, leaves / 2)
    }
}

// ---------------------------------------------------------------------------
// Direct paths and changes to the tree

/// The depth of a tree of `n` leaves: the length of each direct path.
pub open spec fn tree_depth(n: nat) -> nat
    decreases n,
{
    if n <= 1 {
        0
    } else {
        1 + tree_depth(n / 2)
    }
}

/// The slot reached from slot `x` (children `half` away) one step towards
/// slot `target`.
pub open spec fn step_towards(x: int, half: nat, target: int) -> int {
    if target < x {
        x - half
    } else {
        x + half
    }
}

/// The nodes with the parents between slot `x` and leaf slot `target`
/// (from `x` down) made blank.
pub open spec fn blank_path(nodes: Seq<Option<NodeView>>, x: int, half: nat, target: int) -> Seq<
    Option<NodeView>,
>
    decreases half,
{
    if half == 0 {
        nodes
    } else {
        blank_path(nodes.update(x, None), step_towards(x, half, target), half / 2, target)
    }
}

/// A fresh parent with this key, no parent hash and no unmerged leaves.
pub open spec fn fresh_parent(key: Seq<u8>) -> Option<NodeView> {
    Some(
        NodeView::Parent(
            ParentNodeView { encryption_key: key, parent_hash: Seq::empty(), unmerged_leaves: Seq::empty() },
        ),
    )
}

/// The nodes with fresh parents installed between slot `x` and leaf slot
/// `target`; the parent at depth `d` below `x` takes `keys[k - d]`, so that
/// `keys` runs from the leaf's parent up.
pub open spec fn install_path(
    nodes: Seq<Option<NodeView>>,
    x: int,
    half: nat,
    target: int,
    keys: Seq<Seq<u8>>,
    k: int,
) -> Seq<Option<NodeView>>
    decreases half,
{
    if half == 0 {
        nodes
    } else {
        install_path(
            nodes.update(x, fresh_parent(keys[k])),
            step_towards(x, half, target),
            half / 2,
            target,
            keys,
            k - 1,
        )
    }
}

/// The tree after the direct path of `leaf` is made blank.
pub open spec fn spec_blank_direct_path(nodes: Seq<Option<NodeView>>, leaf: nat) -> Seq<
    Option<NodeView>,
> {
    blank_path(nodes, root_slot(nodes.len()), root_half(nodes.len()), (2 * leaf) as int)
}

/// The tree after the direct path of `leaf` receives parents with `keys`,
/// given from the leaf's parent up to the root.
pub open spec fn spec_install_direct_path(
    nodes: Seq<Option<NodeView>>,
    leaf: nat,
    keys: Seq<Seq<u8>>,
) -> Seq<Option<NodeView>> {
    install_path(
        nodes,
        root_slot(nodes.len()),
        root_half(nodes.len()),
        (2 * leaf) as int,
        keys,
        tree_depth(((nodes.len() + 1) / 2) as nat) - 1,
    )
}

/// A tree of twice the leaves: the old slots, then blank ones.
pub open spec fn extended(nodes: Seq<Option<NodeView>>) -> Seq<Option<NodeView>> {
    nodes + Seq::new(nodes.len() + 1, |i: int| None::<NodeView>)
}

/// Facts on the child slots of an aligned slot.
proof fn lemma_child_alignment(x: int, half: int, q: int)
    requires
        half >= 1,
        half == 1 || half % 2 == 0,
        q >= 0,
        x + 1 == (2 * q + 1) * (2 * half),
    ensures
        x % 2 == 1,
        half >= 2 ==> x - half + 1 == (2 * (2 * q) + 1) * (2 * (half / 2)),
        half >= 2 ==> x + half + 1 == (2 * (2 * q + 1) + 1) * (2 * (half / 2)),
        x + 1 >= 2 * half,
{
    assert((2 * q + 1) * (2 * half) == 2 * ((2 * q + 1) * half)) by (nonlinear_arith);
    assert((2 * q + 1) * (2 * half) >= 2 * half) by (nonlinear_arith)
        requires
            q >= 0,
            half >= 1,
    ;
    if half >= 2 {
        assert(2 * (half / 2) == half);
        assert(x - half + 1 == (4 * q + 1) * half) by (nonlinear_arith)
            requires
                x + 1 == (2 * q + 1) * (2 * half),
        ;
        assert(x + half + 1 == (4 * q + 3) * half) by (nonlinear_arith)
            requires
                x + 1 == (2 * q + 1) * (2 * half),
        ;
    }
}

impl TreeSync {
    /// The number of parents on each direct path.
    pub fn depth(&self) -> (r: usize)
        requires
            self.wf(),
        ensures
            r == tree_depth(self.spec_leaf_count()),
    {
        let n0 = (self.nodes.len() + 1) / 2;
        let mut n = n0;
        let mut d: usize = 0;
        while n > 1
            invariant
                d + tree_depth(n as nat) == tree_depth(self.spec_leaf_count()),
                d + n <= n0,
            decreases n,
        {
            n = n / 2;
            d = d + 1;
        }
        d
    }
}

impl TreeSync {
    /// Writes `node` into slot `slot`.
    fn set_slot(&mut self, slot: usize, node: Option<Node>)
        requires
            slot < old(self).view_nodes().len(),
        ensures
            final(self).view_nodes() == old(self).view_nodes().update(slot as int, opt_node_view(node)),
    {
        let ghost v = opt_node_view(node);
        self.nodes.set(slot, node);
        assert(self.view_nodes() =~= old(self).view_nodes().update(slot as int, v));
    }

    /// Makes blank every parent on the direct path of `leaf`.
    pub fn blank_direct_path(&mut self, leaf: u32)
        requires
            old(self).wf(),
            (leaf as nat) < old(self).spec_leaf_count(),
        ensures
            final(self).wf(),
            final(self).view_nodes() == spec_blank_direct_path(old(self).view_nodes(), leaf as nat),
    {
        let ghost v0 = self.view_nodes();
        let len = self.nodes.len();
        let n = (len + 1) / 2;
        let target = 2 * (leaf as usize);
        let mut x = n - 1;
        let mut half = n / 2;
        let ghost mut q: int = 0;
        proof {
            lemma_pow2_half(n as nat);
            if half >= 1 {
                assert(x + 1 == (2 * q + 1) * (2 * half)) by (nonlinear_arith)
                    requires
                        q == 0,
                        x + 1 == 2 * half,
                ;
            }
        }
        while half > 0
            invariant
                self.wf(),
                len == self.view_nodes().len(),
                target < len,
                x < len,
                half == 0 || is_pow2(half as nat),
                x + 1 >= 2 * half,
                x + 2 * half < len + 1,
                half >= 1 ==> q >= 0 && x + 1 == (2 * q + 1) * (2 * half),
                blank_path(self.view_nodes(), x as int, half as nat, target as int) == blank_path(
                    v0,
                    root_slot(v0.len()),
                    root_half(v0.len()),
                    target as int,
                ),
            decreases half,
        {
            proof {
                lemma_pow2_half(half as nat);
                lemma_child_alignment(x as int, half as int, q);
            }
            self.set_slot(x, None);
            if target < x {
                x = x - half;
                proof {
                    q = 2 * q;
                }
            } else {
                x = x + half;
                proof {
                    q = 2 * q + 1;
                }
            }
            half = half / 2;
        }
    }

    /// Installs fresh parents with `keys` on the direct path of `leaf`;
    /// `keys` runs from the leaf's parent up to the root.
    pub fn install_direct_path(&mut self, leaf: u32, keys: &Vec<Vec<u8>>)
        requires
            old(self).wf(),
            (leaf as nat) < old(self).spec_leaf_count(),
            keys@.len() == tree_depth(old(self).spec_leaf_count()),
        ensures
            final(self).wf(),
            final(self).view_nodes() == spec_install_direct_path(
                old(self).view_nodes(),
                leaf as nat,
                keys@.map_values(|k: Vec<u8>| k@),
            ),
            final(self).view_nodes().len() == old(self).view_nodes().len(),
    {
        let ghost v0 = self.view_nodes();
        let ghost ks = keys@.map_values(|k: Vec<u8>| k@);
        let len = self.nodes.len();
        let n = (len + 1) / 2;
        let depth = self.depth();
        let target = 2 * (leaf as usize);
        let mut x = n - 1;
        let mut half = n / 2;
        let mut steps: usize = 0;
        let ghost mut q: int = 0;
        proof {
            lemma_pow2_half(n as nat);
            if half >= 1 {
                assert(x + 1 == (2 * q + 1) * (2 * half)) by (nonlinear_arith)
                    requires
                        q == 0,
                        x + 1 == 2 * half,
                ;
            }
        }
        while half > 0
            invariant
                self.wf(),
                len == self.view_nodes().len(),
                keys@.len() == depth,
                ks == keys@.map_values(|k: Vec<u8>| k@),
                target < len,
                x < len,
                half == 0 || is_pow2(half as nat),
                x + 1 >= 2 * half,
                x + 2 * half < len + 1,
                half >= 1 ==> q >= 0 && x + 1 == (2 * q + 1) * (2 * half),
                steps + tree_depth(2 * half as nat) == depth,
                install_path(
                    self.view_nodes(),
                    x as int,
                    half as nat,
                    target as int,
                    ks,
                    depth - 1 - steps,
                ) == spec_install_direct_path(v0, leaf as nat, ks),
            decreases half,
        {
            proof {
                lemma_pow2_half(half as nat);
                lemma_child_alignment(x as int, half as int, q);
                assert(tree_depth(2 * half as nat) == 1 + tree_depth(half as nat));
                if half >= 2 {
                    assert(2 * (half / 2) == half);
                } else {
                    assert(tree_depth(half as nat) == 0);
                }
            }
            let k = depth - 1 - steps;
            let parent = ParentNode {
                encryption_key: copy_bytes(&keys[k]),
                parent_hash: Vec::new(),
                unmerged_leaves: Vec::new(),
            };
            proof {
                assert(parent@.parent_hash =~= Seq::<u8>::empty());
                assert(parent@.unmerged_leaves =~= Seq::<u32>::empty());
                assert(ks[k as int] == keys@[k as int]@);
            }
            let ghost before = self.view_nodes();
            self.set_slot(x, Some(Node::ParentNode(parent)));
            assert(self.view_nodes() == before.update(x as int, fresh_parent(ks[k as int])));
            if target < x {
                x = x - half;
                proof {
                    q = 2 * q;
                }
            } else {
                x = x + half;
                proof {
                    q = 2 * q + 1;
                }
            }
            half = half / 2;
            steps = steps + 1;
        }
    }

    /// Replaces the leaf at `index`.
    pub fn update_leaf(&mut self, index: u32, leaf: LeafNode)
        requires
            old(self).wf(),
            (index as nat) < old(self).spec_leaf_count(),
        ensures
            final(self).wf(),
            final(self).view_nodes() == old(self).view_nodes().update(
                2 * index as int,
                Some(NodeView::Leaf(leaf@)),
            ),
    {
        self.set_slot(2 * (index as usize), Some(Node::LeafNode(leaf)));
    }

    /// Blanks the leaf at `index` and its direct path.
    pub fn remove_leaf(&mut self, index: u32)
        requires
            old(self).wf(),
            (index as nat) < old(self).spec_leaf_count(),
        ensures
            final(self).wf(),
            final(self).view_nodes() == spec_blank_direct_path(
                old(self).view_nodes().update(2 * index as int, None),
                index as nat,
            ),
    {
        self.set_slot(2 * (index as usize), None);
        self.blank_direct_path(index);
    }

    /// Places `leaf` at the leftmost blank leaf, doubling the tree first
    /// where every leaf is populated; returns its index.
    pub fn add_leaf(&mut self, leaf: LeafNode) -> (r: Result<u32, TreeSyncError>)
        requires
            old(self).wf(),
        ensures
            final(self).wf(),
            spec_free_leaf(old(self).view_nodes()) <= old(self).spec_leaf_count(),
            r is Err <==> (spec_free_leaf(old(self).view_nodes()) == old(self).spec_leaf_count() && 2
                * old(self).view_nodes().len() + 1 > MAX_NODES),
            r is Err ==> r->Err_0 == TreeSyncError::TooLarge && final(self).view_nodes()
                == old(self).view_nodes(),
            r is Ok ==> r->Ok_0 == spec_free_leaf(old(self).view_nodes()),
            r is Ok ==> final(self).view_nodes() == (if spec_free_leaf(old(self).view_nodes())
                < old(self).spec_leaf_count() {
                old(self).view_nodes()
            } else {
                extended(old(self).view_nodes())
            }).update(2 * r->Ok_0 as int, Some(NodeView::Leaf(leaf@))),
    {
        let free = self.free_leaf_index();
        let len = self.nodes.len();
        let n = (len + 1) / 2;
        if free as usize == n {
            if len > (MAX_NODES - 1) / 2 {
                return Err(TreeSyncError::TooLarge);
            }
            let ghost v0 = self.view_nodes();
            let mut k: usize = 0;
            while k < len + 1
                invariant
                    k <= len + 1,
                    len == v0.len(),
                    len <= MAX_NODES,
                    self.view_nodes() == v0 + Seq::new(k as nat, |i: int| None::<NodeView>),
                decreases len + 1 - k,
            {
                let ghost prev = self.view_nodes();
                self.nodes.push(None);
                assert(self.view_nodes() =~= prev.push(None));
                assert(prev.push(None) =~= v0 + Seq::new((k + 1) as nat, |i: int| None::<NodeView>));
                k = k + 1;
            }
            proof {
                let v = self.view_nodes();
                assert(v =~= extended(v0));
                assert((v.len() + 1) / 2 == 2 * n);
                assert(is_pow2(2 * n as nat)) by {
                    assert((2 * n as nat) / 2 == n as nat);
                }
                assert forall|i: int, j: int|
                    0 <= i < v.len() && v[i] is Some && #[trigger] v[i]->Some_0 is Parent && 0 <= j
                        < v[i]->Some_0->Parent_0.unmerged_leaves.len() implies #[trigger] v[i]->Some_0->Parent_0.unmerged_leaves[j]
                        < (v.len() + 1) / 2 by {
                    assert(i < v0.len());
                    assert(v[i] == v0[i]);
                }
                assert forall|i: int| 0 <= i < v.len() && #[trigger] v[i] is Some implies (
                v[i]->Some_0 is Leaf <==> i % 2 == 0) by {
                    assert(i < v0.len());
                    assert(v[i] == v0[i]);
                }
                assert(self.wf());
            }
        }
        self.set_slot(2 * (free as usize), Some(Node::LeafNode(leaf)));
        Ok(free)
    }
}

// ---------------------------------------------------------------------------
// Path secrets

/// The label of the step from one path secret to the next.
pub open spec fn path_label() -> Seq<u8> {
    seq![0x70u8, 0x61u8, 0x74u8, 0x68u8]
}

/// The label of the step from a path secret to its node secret.
pub open spec fn node_label() -> Seq<u8> {
    seq![0x6eu8, 0x6fu8, 0x64u8, 0x65u8]
}

/// The path secret that follows `s`.
pub open spec fn next_path_secret<P: CryptoProvider>(p: P, cs: Ciphersuite, s: Seq<u8>) -> Seq<u8> {
    p.expand_label_of(cs.spec_hash_algorithm(), s, path_label(), cs.spec_hash_algorithm().spec_size())
}

/// The public key of the node whose path secret is `s`.
pub open spec fn node_public_key<P: CryptoProvider>(p: P, cs: Ciphersuite, s: Seq<u8>) -> Seq<u8> {
    p.hpke_public_key_of(
        cs,
        p.expand_label_of(cs.spec_hash_algorithm(), s, node_label(), cs.spec_hash_algorithm().spec_size()),
    )
}

/// The path secret `k` steps above `s`.
pub open spec fn secret_chain<P: CryptoProvider>(p: P, cs: Ciphersuite, s: Seq<u8>, k: nat) -> Seq<u8>
    decreases k,
{
    if k == 0 {
        s
    } else {
        next_path_secret(p, cs, secret_chain(p, cs, s, (k - 1) as nat))
    }
}

/// The public key of the node `k` steps above the one whose path secret is
/// `s`.
pub open spec fn chain_key<P: CryptoProvider>(p: P, cs: Ciphersuite, s: Seq<u8>, k: nat) -> Seq<u8> {
    node_public_key(p, cs, secret_chain(p, cs, s, k))
}

/// The private key of the node `k` steps above the one whose path secret
/// is `s`.
pub open spec fn chain_private_key<P: CryptoProvider>(p: P, cs: Ciphersuite, s: Seq<u8>, k: nat) -> Seq<u8> {
    p.hpke_private_key_of(
        cs,
        p.expand_label_of(
            cs.spec_hash_algorithm(),
            secret_chain(p, cs, s, k),
            node_label(),
            cs.spec_hash_algorithm().spec_size(),
        ),
    )
}

/// Whether some node of `slots` lacks the key derived for it from `s`.
pub open spec fn some_key_differs<P: CryptoProvider>(
    p: P,
    cs: Ciphersuite,
    nodes: Seq<Option<NodeView>>,
    slots: Seq<int>,
    s: Seq<u8>,
) -> bool {
    exists|i: int| 0 <= i < slots.len() && !parent_key_is(nodes, #[trigger] slots[i], chain_key(p, cs, s, i as nat))
}

/// The slots from `x` down to the lowest node above both leaf slots `t1` and
/// `t2`, top first.
pub open spec fn common_path(x: int, half: nat, t1: int, t2: int) -> Seq<int>
    decreases half,
{
    if half == 0 {
        Seq::empty()
    } else if (t1 < x) != (t2 < x) {
        seq![x]
    } else {
        seq![x] + common_path(step_towards(x, half, t1), half / 2, t1, t2)
    }
}

/// The nodes above both leaves, from their lowest common ancestor up to the
/// root.
pub open spec fn shared_path(len: nat, a: nat, b: nat) -> Seq<int> {
    common_path(root_slot(len), root_half(len), 2 * a as int, 2 * b as int).reverse()
}

/// Whether slot `s` holds a parent whose key is `key`.
pub open spec fn parent_key_is(nodes: Seq<Option<NodeView>>, s: int, key: Seq<u8>) -> bool {
    0 <= s < nodes.len() && nodes[s] is Some && nodes[s]->Some_0 is Parent
        && nodes[s]->Some_0->Parent_0.encryption_key == key
}

/// An HPKE key pair of a node.
#[derive(Debug)]
pub struct EncryptionKeyPair {
    pub private_key: Vec<u8>,
    pub public_key: Vec<u8>,
}

/// Errors of deriving path secrets.
#[derive(Debug, PartialEq, Eq, Clone, Copy, Structural)]
pub enum DerivePathError {
    /// A derived public key differs from the one in the tree.
    PublicKeyMismatch,
    /// A leaf lies outside the tree, or the two leaves coincide.
    LibraryError,
    /// The provider failed.
    Crypto(CryptoError),
}

/// The bytes of a four-letter label.
fn label_bytes(a: u8, b: u8, c: u8, d: u8) -> (r: Vec<u8>)
    ensures
        r@ == seq![a, b, c, d],
{
    let mut v: Vec<u8> = Vec::new();
    v.push(a);
    v.push(b);
    v.push(c);
    v.push(d);
    assert(v@ =~= seq![a, b, c, d]);
    v
}

impl TreeSync {
    /// The slots from the root down to the lowest common ancestor of the
    /// leaves `a` and `b`, top first.
    fn common_path_slots(&self, a: u32, b: u32) -> (r: Vec<usize>)
        requires
            self.wf(),
            (a as nat) < self.spec_leaf_count(),
            (b as nat) < self.spec_leaf_count(),
        ensures
            r@.map_values(|s: usize| s as int) == common_path(
                root_slot(self.view_nodes().len()),
                root_half(self.view_nodes().len()),
                2 * a as int,
                2 * b as int,
            ),
            forall|i: int| 0 <= i < r@.len() ==> (#[trigger] r@[i]) < self.view_nodes().len(),
    {
        let len = self.nodes.len();
        let n = (len + 1) / 2;
        let t1 = 2 * (a as usize);
        let t2 = 2 * (b as usize);
        let mut x = n - 1;
        let mut half = n / 2;
        let mut out: Vec<usize> = Vec::new();
        let ghost full = common_path(root_slot(len as nat), root_half(len as nat), t1 as int, t2 as int);
        proof {
            lemma_pow2_half(n as nat);
        }
        while half > 0
            invariant
                len == self.view_nodes().len(),
                full == common_path(root_slot(len as nat), root_half(len as nat), t1 as int, t2 as int),
                t1 == 2 * a,
                t2 == 2 * b,
                t1 < len,
                t2 < len,
                x < len,
                half == 0 || is_pow2(half as nat),
                x + 1 >= 2 * half,
                x + 2 * half < len + 1,
                full == out@.map_values(|s: usize| s as int) + common_path(
                    x as int,
                    half as nat,
                    t1 as int,
                    t2 as int,
                ),
                forall|i: int| 0 <= i < out@.len() ==> (#[trigger] out@[i]) < len,
            decreases half,
        {
            proof {
                lemma_pow2_half(half as nat);
            }
            let ghost before = out@.map_values(|s: usize| s as int);
            out.push(x);
            assert(out@.map_values(|s: usize| s as int) =~= before.push(x as int));
            if (t1 < x) != (t2 < x) {
                assert(common_path(x as int, half as nat, t1 as int, t2 as int) == seq![x as int]);
                assert(full =~= before + common_path(x as int, half as nat, t1 as int, t2 as int));
                assert(full =~= out@.map_values(|s: usize| s as int));
                return out;
            }
            proof {
                assert(full =~= out@.map_values(|s: usize| s as int) + common_path(
                    step_towards(x as int, half as nat, t1 as int),
                    (half / 2) as nat,
                    t1 as int,
                    t2 as int,
                ));
            }
            if t1 < x {
                x = x - half;
            } else {
                x = x + half;
            }
            half = half / 2;
        }
        assert(full =~= out@.map_values(|s: usize| s as int));
        out
    }

    /// Derives the key pairs of the nodes above both `sender_index` and
    /// `leaf_index`, from their lowest common ancestor up to the root,
    /// starting from `path_secret` at that ancestor, and checks each public
    /// key against the one in the tree. Returns the key pairs and the commit
    /// secret, the path secret that follows the root's. Two equal leaves have
    /// no common ancestor above them, so that call, like a leaf outside the
    /// tree, is a `LibraryError`.
    #[verifier::spinoff_prover]
    pub fn derive_path_secrets<P: CryptoProvider>(
        &self,
        provider: &P,
        ciphersuite: Ciphersuite,
        path_secret: Vec<u8>,
        sender_index: u32,
        leaf_index: u32,
    ) -> (r: Result<(Vec<EncryptionKeyPair>, Vec<u8>), DerivePathError>)
        requires
            self.wf(),
        ensures
            ((sender_index as nat) >= self.spec_leaf_count() || (leaf_index as nat)
                >= self.spec_leaf_count() || sender_index == leaf_index) <==> r == Err::<
                (Vec<EncryptionKeyPair>, Vec<u8>),
                _,
            >(DerivePathError::LibraryError),
            r is Ok ==> {
                let slots = shared_path(self.view_nodes().len(), sender_index as nat, leaf_index as nat);
                &&& r->Ok_0.0@.len() == slots.len()
                &&& forall|i: int|
                    0 <= i < slots.len() ==> (#[trigger] r->Ok_0.0@[i]).public_key@ == chain_key(
                        *provider,
                        ciphersuite,
                        path_secret@,
                        i as nat,
                    )
                &&& forall|i: int|
                    0 <= i < slots.len() ==> parent_key_is(
                        self.view_nodes(),
                        #[trigger] slots[i],
                        chain_key(*provider, ciphersuite, path_secret@, i as nat),
                    )
                &&& forall|i: int|
                    0 <= i < slots.len() ==> (#[trigger] r->Ok_0.0@[i]).private_key@ == chain_private_key(
                        *provider,
                        ciphersuite,
                        path_secret@,
                        i as nat,
                    )
                &&& r->Ok_0.1@ == secret_chain(*provider, ciphersuite, path_secret@, slots.len())
                &&& r->Ok_0.1@.len() == ciphersuite.spec_hash_algorithm().spec_size()
            },
            r == Err::<(Vec<EncryptionKeyPair>, Vec<u8>), _>(DerivePathError::PublicKeyMismatch)
                ==> some_key_differs(
                *provider,
                ciphersuite,
                self.view_nodes(),
                shared_path(self.view_nodes().len(), sender_index as nat, leaf_index as nat),
                path_secret@,
            ),
            (!(r is Err && r->Err_0 is Crypto) && r != Err::<(Vec<EncryptionKeyPair>, Vec<u8>), _>(
                DerivePathError::LibraryError,
            )) ==> (r == Err::<(Vec<EncryptionKeyPair>, Vec<u8>), _>(DerivePathError::PublicKeyMismatch)
                <==> some_key_differs(
                *provider,
                ciphersuite,
                self.view_nodes(),
                shared_path(self.view_nodes().len(), sender_index as nat, leaf_index as nat),
                path_secret@,
            )),
    {
        let leaves = (self.nodes.len() + 1) / 2;
        if sender_index as usize >= leaves || leaf_index as usize >= leaves || sender_index == leaf_index {
            return Err(DerivePathError::LibraryError);
        }
        let ghost v = self.view_nodes();
        let slots = self.common_path_slots(sender_index, leaf_index);
        let ghost sp = shared_path(v.len(), sender_index as nat, leaf_index as nat);
        let ghost cp = slots@.map_values(|s: usize| s as int);
        let alg = ciphersuite.hash_algorithm();
        let hash_len = alg.size();
        let path = label_bytes(0x70, 0x61, 0x74, 0x68);
        let node = label_bytes(0x6e, 0x6f, 0x64, 0x65);
        let m = slots.len();
        let ghost ps = path_secret@;
        let mut secret = path_secret;
        let mut keypairs: Vec<EncryptionKeyPair> = Vec::new();
        let mut i: usize = 0;
        while i < m
            invariant
                (sender_index as nat) < self.spec_leaf_count(),
                (leaf_index as nat) < self.spec_leaf_count(),
                sender_index != leaf_index,
                ps == path_secret@,
                sp == shared_path(v.len(), sender_index as nat, leaf_index as nat),
                m == slots@.len(),
                sp == cp.reverse(),
                cp == slots@.map_values(|s: usize| s as int),
                v == self.view_nodes(),
                forall|k: int| 0 <= k < slots@.len() ==> (#[trigger] slots@[k]) < v.len(),
                path@ == path_label(),
                node@ == node_label(),
                alg == ciphersuite.spec_hash_algorithm(),
                hash_len == alg.spec_size(),
                i <= m,
                secret@ == secret_chain(*provider, ciphersuite, ps, i as nat),
                i > 0 ==> secret@.len() == hash_len,
                keypairs@.len() == i,
                forall|k: int|
                    0 <= k < i ==> (#[trigger] keypairs@[k]).private_key@ == chain_private_key(
                        *provider,
                        ciphersuite,
                        ps,
                        k as nat,
                    ),
                forall|k: int|
                    0 <= k < i ==> (#[trigger] keypairs@[k]).public_key@ == chain_key(
                        *provider,
                        ciphersuite,
                        ps,
                        k as nat,
                    ) && parent_key_is(v, sp[k], chain_key(*provider, ciphersuite, ps, k as nat)),
            decreases m - i,
        {
            let node_secret = match provider.kdf_expand_label(alg, secret.as_slice(), node.as_slice(), hash_len) {
                Ok(s) => s,
                Err(e) => return Err(DerivePathError::Crypto(e)),
            };
            let (private_key, public_key) = match provider.derive_hpke_keypair(ciphersuite, node_secret.as_slice()) {
                Ok(kp) => kp,
                Err(e) => return Err(DerivePathError::Crypto(e)),
            };
            let slot = slots[m - 1 - i];
            assert(sp[i as int] == slot as int);
            assert(v[slot as int] == opt_node_view(self.nodes@[slot as int]));
            let matches = match &self.nodes[slot] {
                Some(Node::ParentNode(pn)) => crate::proposals::bytes_equal(&pn.encryption_key, &public_key),
                _ => false,
            };
            if !matches {
                assert(!parent_key_is(v, sp[i as int], public_key@));
                return Err(DerivePathError::PublicKeyMismatch);
            }
            let ghost key = chain_key(*provider, ciphersuite, ps, i as nat);
            assert(public_key@ == key);
            assert(parent_key_is(v, sp[i as int], key));
            let ghost prev = keypairs@;
            let ghost priv_key = chain_private_key(*provider, ciphersuite, ps, i as nat);
            assert(private_key@ == priv_key);
            keypairs.push(EncryptionKeyPair { private_key, public_key });
            secret = match provider.kdf_expand_label(alg, secret.as_slice(), path.as_slice(), hash_len) {
                Ok(s) => s,
                Err(e) => return Err(DerivePathError::Crypto(e)),
            };
            assert(secret@ == secret_chain(*provider, ciphersuite, ps, (i + 1) as nat));
            assert forall|k: int| 0 <= k < i + 1 implies {
                &&& (#[trigger] keypairs@[k]).public_key@ == chain_key(*provider, ciphersuite, ps, k as nat)
                &&& parent_key_is(v, sp[k], chain_key(*provider, ciphersuite, ps, k as nat))
                &&& keypairs@[k].private_key@ == chain_private_key(*provider, ciphersuite, ps, k as nat)
            } by {
                if k < i {
                    assert(keypairs@[k] == prev[k]);
                } else {
                    assert(keypairs@[k].public_key@ == key);
                }
            }
            i = i + 1;
        }
        proof {
            assert(m > 0) by {
                let len = v.len();
                let n = (len + 1) / 2;
                lemma_pow2_half(n as nat);
                assert(root_half(len) > 0);
                assert(cp =~= common_path(root_slot(len), root_half(len), 2 * sender_index as int, 2 * leaf_index as int));
            }
        }
        assert forall|k: int| 0 <= k < sp.len() implies parent_key_is(
            v,
            #[trigger] sp[k],
            chain_key(*provider, ciphersuite, ps, k as nat),
        ) by {
            assert(keypairs@[k].public_key@ == chain_key(*provider, ciphersuite, ps, k as nat));
        }
        Ok((keypairs, secret))
    }
}

impl TreeSync {
    /// Whether every node can be encoded.
    fn check_fit(&self) -> (r: bool)
        ensures
            r == all_nodes_fit(self.view_nodes()),
    {
        let ghost v = self.view_nodes();
        let mut i: usize = 0;
        while i < self.nodes.len()
            invariant
                v == self.view_nodes(),
                i <= v.len(),
                forall|k: int| 0 <= k < i ==> opt_node_fits(#[trigger] v[k]),
            decreases v.len() - i,
        {
            assert(v[i as int] == opt_node_view(self.nodes@[i as int]));
            if encode_opt_node(&self.nodes[i]).is_err() {
                return false;
            }
            i = i + 1;
        }
        true
    }

    /// Whether every populated leaf has a credential.
    fn check_credentials(&self) -> (r: bool)
        requires
            self.wf(),
        ensures
            r == credentials_ok(self.view_nodes()),
    {
        let ghost v = self.view_nodes();
        let leaves = (self.nodes.len() + 1) / 2;
        let mut i: usize = 0;
        while i < leaves
            invariant
                v == self.view_nodes(),
                nodes_well_formed(v),
                leaves == (v.len() + 1) / 2,
                i <= leaves,
                forall|k: int| 0 <= k < i && #[trigger] leaf_at(v, k) is Some ==> leaf_at(v, k)->Some_0.credential.len() > 0,
            decreases leaves - i,
        {
            assert(v[2 * i as int] == opt_node_view(self.nodes@[2 * i as int]));
            match &self.nodes[2 * i] {
                Some(Node::LeafNode(l)) => {
                    if l.credential.len() == 0 {
                        assert(leaf_at(v, i as int) is Some);
                        return false;
                    }
                },
                _ => {},
            }
            i = i + 1;
        }
        assert forall|k: int| #[trigger] leaf_at(v, k) is Some implies leaf_at(v, k)->Some_0.credential.len() > 0 by {
            assert(0 <= k < leaves);
        }
        true
    }

    /// Whether every populated leaf's signature verifies.
    fn check_signatures<P: CryptoProvider>(&self, provider: &P, ciphersuite: Ciphersuite) -> (r: bool)
        requires
            self.wf(),
            all_nodes_fit(self.view_nodes()),
        ensures
            r == signatures_ok(*provider, ciphersuite, self.view_nodes()),
    {
        let ghost v = self.view_nodes();
        let leaves = (self.nodes.len() + 1) / 2;
        let scheme = ciphersuite.signature_algorithm();
        let mut i: usize = 0;
        while i < leaves
            invariant
                v == self.view_nodes(),
                nodes_well_formed(v),
                all_nodes_fit(v),
                scheme == ciphersuite.spec_signature_algorithm(),
                leaves == (v.len() + 1) / 2,
                i <= leaves,
                forall|k: int| 0 <= k < i && #[trigger] leaf_at(v, k) is Some ==> leaf_signature_ok(
                    *provider,
                    ciphersuite,
                    leaf_at(v, k)->Some_0,
                ),
            decreases leaves - i,
        {
            assert(v[2 * i as int] == opt_node_view(self.nodes@[2 * i as int]));
            match &self.nodes[2 * i] {
                Some(Node::LeafNode(l)) => {
                    assert(opt_node_fits(v[2 * i as int]));
                    let tbs = match encode_leaf_tbs(l) {
                        Ok(b) => b,
                        Err(_) => return false,
                    };
                    if provider.verify_signature(
                        scheme,
                        l.signature_key.as_slice(),
                        tbs.as_slice(),
                        l.signature.as_slice(),
                    ).is_err() {
                        assert(leaf_at(v, i as int) is Some);
                        return false;
                    }
                },
                _ => {},
            }
            i = i + 1;
        }
        assert forall|k: int| #[trigger] leaf_at(v, k) is Some implies leaf_signature_ok(
            *provider,
            ciphersuite,
            leaf_at(v, k)->Some_0,
        ) by {
            assert(0 <= k < leaves);
        }
        true
    }

    /// Whether the parent-hash links hold in the subtree under slot `x`.
    fn check_chain<P: CryptoProvider>(
        &self,
        provider: &P,
        alg: HashType,
        x: usize,
        half: usize,
    ) -> (r: Result<bool, CryptoError>)
        requires
            self.wf(),
            all_nodes_fit(self.view_nodes()),
            x < self.view_nodes().len(),
            x + 1 >= 2 * half,
            x + 2 * half < self.view_nodes().len() + 1,
            half == 0 || is_pow2(half as nat),
        ensures
            r is Ok ==> r->Ok_0 == chain_ok(*provider, alg, self.view_nodes(), x as int, half as nat),
        decreases half,
    {
        if half == 0 {
            return Ok(true);
        }
        proof {
            lemma_pow2_half(half as nat);
        }
        let ghost v = self.view_nodes();
        assert(v[x as int] == opt_node_view(self.nodes@[x as int]));
        let here = match &self.nodes[x] {
            Some(Node::ParentNode(pn)) => {
                assert(opt_node_fits(v[x as int]));
                let mut input = match encode_vector(pn.encryption_key.as_slice()) {
                    Ok(b) => b,
                    Err(_) => return Ok(false),
                };
                let b = match encode_vector(pn.parent_hash.as_slice()) {
                    Ok(b) => b,
                    Err(_) => return Ok(false),
                };
                append_bytes(&mut input, b);
                let h = provider.hash(alg, input.as_slice())?;
                let l = x - half;
                let rt = x + half;
                assert(v[l as int] == opt_node_view(self.nodes@[l as int]));
                assert(v[rt as int] == opt_node_view(self.nodes@[rt as int]));
                let left_ok = match &self.nodes[l] {
                    Some(Node::LeafNode(c)) => crate::proposals::bytes_equal(&c.parent_hash, &h),
                    Some(Node::ParentNode(c)) => crate::proposals::bytes_equal(&c.parent_hash, &h),
                    None => false,
                };
                let right_ok = match &self.nodes[rt] {
                    Some(Node::LeafNode(c)) => crate::proposals::bytes_equal(&c.parent_hash, &h),
                    Some(Node::ParentNode(c)) => crate::proposals::bytes_equal(&c.parent_hash, &h),
                    None => false,
                };
                left_ok || right_ok
            },
            _ => true,
        };
        if !here {
            return Ok(false);
        }
        let left = self.check_chain(provider, alg, x - half, half / 2)?;
        if !left {
            return Ok(false);
        }
        self.check_chain(provider, alg, x + half, half / 2)
    }

    /// Builds a tree from its nodes. The nodes must form a left-balanced
    /// tree, every node must be encodable, every leaf must have a
    /// credential and a signature that verifies under its own key, and
    /// every parent must be linked to a child by its parent hash; the checks
    /// run in that order.
    pub fn from_nodes<P: CryptoProvider>(
        provider: &P,
        ciphersuite: Ciphersuite,
        nodes: Vec<Option<Node>>,
    ) -> (r: Result<TreeSync, TreeSyncError>)
        ensures
            ({
                let v = nodes@.map_values(|o: Option<Node>| opt_node_view(o));
                let alg = ciphersuite.spec_hash_algorithm();
                &&& !nodes_well_formed(v) <==> r == Err::<TreeSync, _>(TreeSyncError::MalformedTree)
                &&& (nodes_well_formed(v) && !all_nodes_fit(v)) <==> r == Err::<TreeSync, _>(
                    TreeSyncError::Encoding(CodecError::VectorTooLong),
                )
                &&& (nodes_well_formed(v) && all_nodes_fit(v) && !credentials_ok(v)) <==> r == Err::<
                    TreeSync,
                    _,
                >(TreeSyncError::MalformedCredential)
                &&& (nodes_well_formed(v) && all_nodes_fit(v) && credentials_ok(v) && !signatures_ok(
                    *provider,
                    ciphersuite,
                    v,
                )) <==> r == Err::<TreeSync, _>(TreeSyncError::InvalidLeafSignature)
                &&& (nodes_well_formed(v) && all_nodes_fit(v) && credentials_ok(v) && signatures_ok(
                    *provider,
                    ciphersuite,
                    v,
                ) && !(r is Err && r->Err_0 is Crypto)) ==> (r == Err::<TreeSync, _>(
                    TreeSyncError::ParentHashMismatch,
                ) <==> !tree_chain_ok(*provider, alg, v))
                &&& r is Err ==> (r->Err_0 is Crypto || r->Err_0 == TreeSyncError::MalformedTree
                    || r->Err_0 == TreeSyncError::Encoding(CodecError::VectorTooLong) || r->Err_0
                    == TreeSyncError::MalformedCredential || r->Err_0 == TreeSyncError::InvalidLeafSignature
                    || r->Err_0 == TreeSyncError::ParentHashMismatch)
                &&& r is Ok ==> {
                    &&& r->Ok_0.wf()
                    &&& r->Ok_0.view_nodes() == v
                    &&& all_nodes_fit(v)
                    &&& credentials_ok(v)
                    &&& signatures_ok(*provider, ciphersuite, v)
                    &&& tree_chain_ok(*provider, alg, v)
                }
            }),
    {
        let tree = TreeSync::from_shape(nodes)?;
        if !tree.check_fit() {
            return Err(TreeSyncError::Encoding(CodecError::VectorTooLong));
        }
        if !tree.check_credentials() {
            return Err(TreeSyncError::MalformedCredential);
        }
        if !tree.check_signatures(provider, ciphersuite) {
            return Err(TreeSyncError::InvalidLeafSignature);
        }
        let leaves = (tree.nodes.len() + 1) / 2;
        proof {
            lemma_pow2_half(leaves as nat);
        }
        match tree.check_chain(provider, ciphersuite.hash_algorithm(), leaves - 1, leaves / 2) {
            Ok(true) => Ok(tree),
            Ok(false) => Err(TreeSyncError::ParentHashMismatch),
            Err(e) => Err(TreeSyncError::Crypto(e)),
        }
    }
}

/// Checks whether `n` is a power of two.
fn check_pow2(n: usize) -> (r: bool)
    ensures
        r == is_pow2(n as nat),
{
    let mut m = n;
    while m > 1 && m % 2 == 0
        invariant
            is_pow2(n as nat) == is_pow2(m as nat),
        decreases m,
    {
        m = m / 2;
    }
    m == 1
}

} // verus!
