//! The commit pipeline: resolving a commit's proposals, the semantic checks,
//! staging the proposals and the update path into a diff, and the
//! transcript hashes and confirmation tag that seal it.

use vstd::prelude::*;
use crate::group_context::{ExtensionView, Extensions};
use crate::proposals::{Proposal, ProposalStore, ProposalType};
use crate::tree::{
    extended, leaf_at, spec_blank_direct_path, spec_free_leaf, LeafNode, LeafNodeView, NodeView,
    TreeSync, MAX_NODES,
};
use crate::types::CryptoError;

verus! {

/// A proposal inside a commit: given in full, or named by its reference.
#[derive(Debug)]
pub enum ProposalOrRef {
    Proposal(Proposal),
    Reference(Vec<u8>),
}

/// One node of an update path: its new public key and the path secret
/// encrypted to each member below it.
#[derive(Debug)]
pub struct UpdatePathNode {
    pub encryption_key: Vec<u8>,
    pub encrypted_path_secrets: Vec<Vec<u8>>,
}

/// The committer's new leaf and new keys from its leaf's parent up to the
/// root.
#[derive(Debug)]
pub struct UpdatePath {
    pub leaf_node: LeafNode,
    pub nodes: Vec<UpdatePathNode>,
}

/// A commit: the proposals it applies and, optionally, an update path.
#[derive(Debug)]
pub struct Commit {
    pub proposals: Vec<ProposalOrRef>,
    pub path: Option<UpdatePath>,
}

impl Commit {
    /// Whether the commit carries an update path.
    pub fn has_path(&self) -> (r: bool)
        ensures
            r == self.path is Some,
    {
        self.path.is_some()
    }
}

/// Errors of an update path.
#[derive(Debug, PartialEq, Eq, Clone, Copy, Structural)]
pub enum UpdatePathError {
    /// The path's length differs from the committer's direct path.
    PathLengthMismatch,
    /// No path secret could be decrypted for this member.
    UnableToDecrypt,
    /// A key derived from the path secret differs from the path's.
    PathMismatch,
}

/// Errors of staging a commit.
#[derive(Debug, PartialEq, Eq, Clone, Copy, Structural)]
pub enum StageCommitError {
    /// The committer's leaf is blank or outside the tree.
    SenderNotMember,
    /// The message is for another group.
    WrongGroupId,
    /// The message is for another epoch.
    WrongEpoch,
    /// The message's signature does not verify.
    InvalidSignature,
    /// The message's membership tag does not verify.
    MembershipTagMismatch,
    /// A proposal named by reference is not in the store.
    ProposalNotFound,
    /// The committer removes itself.
    AttemptedSelfRemoval,
    /// The proposals demand a path and the commit has none.
    RequiredPathNotFound,
    /// A proposal cannot be applied to the tree.
    InvalidProposal,
    /// The update path is wrong.
    UpdatePathError(UpdatePathError),
    /// The confirmation tag does not verify.
    ConfirmationTagMismatch,
    /// An internal invariant does not hold.
    LibraryError,
    /// The provider failed.
    Crypto(CryptoError),
}

/// The leaf count of a node list.
pub open spec fn leaf_count_of(nodes: Seq<Option<NodeView>>) -> nat {
    ((nodes.len() + 1) / 2) as nat
}

/// The tree after an add: the new leaf goes to the leftmost blank leaf, the
/// tree doubling first where none is blank.
pub open spec fn add_effect(nodes: Seq<Option<NodeView>>, leaf: LeafNodeView) -> Option<Seq<Option<NodeView>>> {
    let free = spec_free_leaf(nodes);
    if free < leaf_count_of(nodes) {
        Some(nodes.update(2 * free as int, Some(NodeView::Leaf(leaf))))
    } else if 2 * nodes.len() + 1 > MAX_NODES {
        None
    } else {
        Some(extended(nodes).update(2 * free as int, Some(NodeView::Leaf(leaf))))
    }
}

/// The tree after one proposal made by the member at `proposer`, or none
/// where it cannot apply.
pub open spec fn apply_one(nodes: Seq<Option<NodeView>>, proposer: u32, p: &Proposal) -> Option<Seq<Option<NodeView>>> {
    match p {
        Proposal::Update(l) => if (proposer as nat) < leaf_count_of(nodes) {
            Some(nodes.update(2 * proposer as int, Some(NodeView::Leaf(l@))))
        } else {
            None
        },
        Proposal::Remove(rp) => if leaf_at(nodes, rp.removed as int) is Some {
            Some(spec_blank_direct_path(nodes.update(2 * rp.removed as int, None), rp.removed as nat))
        } else {
            None
        },
        Proposal::Add(kp) => add_effect(nodes, kp.leaf_node@),
        _ => Some(nodes),
    }
}

/// The tree after the proposals of kind `kind` among `props`, in order.
pub open spec fn apply_kind(
    nodes: Seq<Option<NodeView>>,
    props: Seq<(u32, &Proposal)>,
    kind: ProposalType,
) -> Option<Seq<Option<NodeView>>>
    decreases props.len(),
{
    if props.len() == 0 {
        Some(nodes)
    } else {
        match apply_kind(nodes, props.drop_last(), kind) {
            None => None,
            Some(n) => if props.last().1.spec_type() == kind {
                apply_one(n, props.last().0, props.last().1)
            } else {
                Some(n)
            },
        }
    }
}

/// Whether some proposal among `props` is of kind `t`.
pub open spec fn has_type(props: Seq<(u32, &Proposal)>, t: ProposalType) -> bool {
    exists|i: int| 0 <= i < props.len() && (#[trigger] props[i]).1.spec_type() == t
}

/// The tree after all proposals: updates first, then removes, then adds.
/// A commit that carries a re-initialisation is refused, since what such a
/// commit must do is not settled.
pub open spec fn apply_all(nodes: Seq<Option<NodeView>>, props: Seq<(u32, &Proposal)>) -> Option<Seq<Option<NodeView>>> {
    if has_type(props, ProposalType::ReInit) {
        None
    } else {
        match apply_kind(nodes, props, ProposalType::Update) {
            None => None,
            Some(a) => match apply_kind(a, props, ProposalType::Remove) {
                None => None,
                Some(b) => apply_kind(b, props, ProposalType::Add),
            },
        }
    }
}

/// Whether some proposal among `props` is of kind `t`.
pub fn contains_type(props: &Vec<(u32, &Proposal)>, t: ProposalType) -> (r: bool)
    ensures
        r == has_type(props@, t),
{
    let mut i: usize = 0;
    while i < props.len()
        invariant
            i <= props@.len(),
            forall|k: int| 0 <= k < i ==> (#[trigger] props@[k]).1.spec_type() != t,
        decreases props@.len() - i,
    {
        if props[i].1.proposal_type() == t {
            return true;
        }
        i = i + 1;
    }
    false
}

/// The group extensions after the proposals: those of the last extensions
/// proposal, or `current` where there is none.
pub open spec fn extensions_after(props: Seq<(u32, &Proposal)>, current: Seq<ExtensionView>) -> Seq<ExtensionView>
    decreases props.len(),
{
    if props.len() == 0 {
        current
    } else {
        match props.last().1 {
            Proposal::GroupContextExtensions(e) => e@,
            _ => extensions_after(props.drop_last(), current),
        }
    }
}

/// Whether the proposals remove the member at `sender`.
pub open spec fn removes(props: Seq<(u32, &Proposal)>, sender: u32) -> bool {
    exists|i: int| 0 <= i < props.len() && match #[trigger] props[i].1 {
        Proposal::Remove(rp) => rp.removed == sender,
        _ => false,
    }
}

/// Whether every reference in the commit names a stored proposal.
pub open spec fn refs_found(store: &ProposalStore, commit: &Commit) -> bool {
    forall|i: int| 0 <= i < commit.proposals@.len() ==> match #[trigger] commit.proposals@[i] {
        ProposalOrRef::Reference(r) => store.refs().contains(r@),
        _ => true,
    }
}

/// The proposal a commit entry stands for, with its proposer.
pub open spec fn resolve_one<'a>(store: &'a ProposalStore, committer: u32, e: &'a ProposalOrRef) -> (u32, &'a Proposal) {
    match e {
        ProposalOrRef::Proposal(p) => (committer, p),
        ProposalOrRef::Reference(r) => {
            let q = store.entry(store.position_of(r@)->Some_0);
            (q.sender, &q.proposal)
        },
    }
}

/// The references a commit names.
pub open spec fn commit_refs(commit: &Commit) -> Seq<Seq<u8>>
    decreases commit.proposals@.len(),
{
    commit_refs_upto(commit.proposals@, commit.proposals@.len() as nat)
}

/// The references among the first `k` entries.
pub open spec fn commit_refs_upto(s: Seq<ProposalOrRef>, k: nat) -> Seq<Seq<u8>>
    decreases k,
{
    if k == 0 || k > s.len() {
        Seq::empty()
    } else {
        let prev = commit_refs_upto(s, (k - 1) as nat);
        match s[k - 1] {
            ProposalOrRef::Reference(r) => prev.push(r@),
            _ => prev,
        }
    }
}

/// Resolves a commit's proposals against the store. Fails with
/// `ProposalNotFound` exactly when a reference names no stored proposal.
pub fn resolve_proposals<'a>(
    store: &'a ProposalStore,
    commit: &'a Commit,
    committer: u32,
) -> (r: Result<Vec<(u32, &'a Proposal)>, StageCommitError>)
    requires
        store.wf(),
    ensures
        r is Ok <==> refs_found(store, commit),
        r is Err ==> r->Err_0 == StageCommitError::ProposalNotFound,
        r is Ok ==> r->Ok_0@.len() == commit.proposals@.len() && forall|i: int|
            0 <= i < commit.proposals@.len() ==> #[trigger] r->Ok_0@[i] == resolve_one(
                store,
                committer,
                &commit.proposals@[i],
            ),
{
    let mut out: Vec<(u32, &'a Proposal)> = Vec::new();
    let mut i: usize = 0;
    while i < commit.proposals.len()
        invariant
            store.wf(),
            i <= commit.proposals@.len(),
            out@.len() == i,
            forall|k: int| 0 <= k < i ==> #[trigger] out@[k] == resolve_one(store, committer, &commit.proposals@[k]),
            forall|k: int| 0 <= k < i ==> match #[trigger] commit.proposals@[k] {
                ProposalOrRef::Reference(r) => store.refs().contains(r@),
                _ => true,
            },
        decreases commit.proposals@.len() - i,
    {
        match &commit.proposals[i] {
            ProposalOrRef::Proposal(p) => {
                out.push((committer, p));
            },
            ProposalOrRef::Reference(reference) => {
                match store.get(reference) {
                    Some(q) => {
                        out.push((q.sender, &q.proposal));
                    },
                    None => {
                        return Err(StageCommitError::ProposalNotFound);
                    },
                }
            },
        }
        i = i + 1;
    }
    Ok(out)
}

/// Checks that no proposal removes the committer.
pub fn check_no_self_removal(proposals: &Vec<(u32, &Proposal)>, sender: u32) -> (r: bool)
    ensures
        r == !removes(proposals@, sender),
{
    let mut i: usize = 0;
    while i < proposals.len()
        invariant
            i <= proposals@.len(),
            forall|k: int| 0 <= k < i ==> !match #[trigger] proposals@[k].1 {
                Proposal::Remove(rp) => rp.removed == sender,
                _ => false,
            },
        decreases proposals@.len() - i,
    {
        match proposals[i].1 {
            Proposal::Remove(rp) => {
                if rp.removed == sender {
                    return false;
                }
            },
            _ => {},
        }
        i = i + 1;
    }
    true
}

/// A failure on a prefix stays a failure on the whole list.
proof fn lemma_apply_kind_none_extends(
    nodes: Seq<Option<NodeView>>,
    props: Seq<(u32, &Proposal)>,
    kind: ProposalType,
    i: int,
)
    requires
        0 <= i <= props.len(),
        apply_kind(nodes, props.subrange(0, i), kind) is None,
    ensures
        apply_kind(nodes, props, kind) is None,
    decreases props.len() - i,
{
    if i < props.len() {
        assert(props.subrange(0, i + 1).drop_last() =~= props.subrange(0, i));
        lemma_apply_kind_none_extends(nodes, props, kind, i + 1);
    } else {
        assert(props.subrange(0, i) =~= props);
    }
}

/// Applies the proposals of kind `kind` to the tree, in order.
fn apply_kind_exec(tree: &mut TreeSync, props: &Vec<(u32, &Proposal)>, kind: ProposalType) -> (r: bool)
    requires
        old(tree).wf(),
    ensures
        final(tree).wf(),
        r == apply_kind(old(tree).view_nodes(), props@, kind) is Some,
        r ==> final(tree).view_nodes() == apply_kind(old(tree).view_nodes(), props@, kind)->Some_0,
{
    let ghost v0 = tree.view_nodes();
    let mut i: usize = 0;
    while i < props.len()
        invariant
            tree.wf(),
            v0 == old(tree).view_nodes(),
            i <= props@.len(),
            apply_kind(v0, props@.subrange(0, i as int), kind) == Some(tree.view_nodes()),
        decreases props@.len() - i,
    {
        proof {
            assert(props@.subrange(0, i + 1).drop_last() =~= props@.subrange(0, i as int));
            assert(props@.subrange(0, i + 1).last() == props@[i as int]);
        }
        let (proposer, p) = props[i];
        if p.proposal_type() == kind {
            match p {
                Proposal::Update(l) => {
                    if proposer >= tree.leaf_count() {
                        proof { lemma_apply_kind_none_extends(v0, props@, kind, i + 1); }
                        return false;
                    }
                    tree.update_leaf(proposer, l.duplicate());
                },
                Proposal::Remove(rp) => {
                    if tree.leaf(rp.removed).is_none() {
                        proof { lemma_apply_kind_none_extends(v0, props@, kind, i + 1); }
                        return false;
                    }
                    tree.remove_leaf(rp.removed);
                },
                Proposal::Add(kp) => {
                    let ghost before = tree.view_nodes();
                    let copy = kp.leaf_node.duplicate();
                    let res = tree.add_leaf(copy);
                    match res {
                        Ok(_) => {},
                        Err(_) => {
                            proof { lemma_apply_kind_none_extends(v0, props@, kind, i + 1); }
                            return false;
                        },
                    }
                    assert(Some(tree.view_nodes()) == add_effect(before, kp.leaf_node@));
                },
                _ => {},
            }
        }
        i = i + 1;
    }
    proof {
        assert(props@.subrange(0, props@.len() as int) =~= props@);
    }
    true
}

/// Applies all proposals to the tree: updates, then removes, then adds.
pub fn apply_proposals(tree: &mut TreeSync, props: &Vec<(u32, &Proposal)>) -> (r: bool)
    requires
        old(tree).wf(),
    ensures
        final(tree).wf(),
        r == apply_all(old(tree).view_nodes(), props@) is Some,
        r ==> final(tree).view_nodes() == apply_all(old(tree).view_nodes(), props@)->Some_0,
{
    if contains_type(props, ProposalType::ReInit) {
        return false;
    }
    if !apply_kind_exec(tree, props, ProposalType::Update) {
        return false;
    }
    if !apply_kind_exec(tree, props, ProposalType::Remove) {
        return false;
    }
    apply_kind_exec(tree, props, ProposalType::Add)
}

/// The extensions after the proposals, where the last extensions proposal
/// wins.
pub fn new_extensions(props: &Vec<(u32, &Proposal)>, current: &Extensions) -> (r: Extensions)
    ensures
        r@ == extensions_after(props@, current@),
{
    let mut i: usize = props.len();
    proof {
        assert(props@.subrange(0, props@.len() as int) =~= props@);
    }
    while i > 0
        invariant
            i <= props@.len(),
            extensions_after(props@, current@) == extensions_after(props@.subrange(0, i as int), current@),
        decreases i,
    {
        proof {
            assert(props@.subrange(0, i as int).drop_last() =~= props@.subrange(0, i - 1));
        }
        match props[i - 1].1 {
            Proposal::GroupContextExtensions(e) => {
                return e.duplicate();
            },
            _ => {},
        }
        i = i - 1;
    }
    proof {
        assert(props@.subrange(0, 0) =~= Seq::<(u32, &Proposal)>::empty());
    }
    current.duplicate()
}

} // verus!
