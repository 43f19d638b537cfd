//! Proposals, the store of pending ones, and the rule that decides whether a
//! commit over a set of proposals must carry an update path.

use vstd::prelude::*;
use crate::group_context::Extensions;
use crate::tree::LeafNode;

verus! {

/// A prospective member's signed advertisement: its leaf and its init key.
#[derive(Debug)]
pub struct KeyPackage {
    pub leaf_node: LeafNode,
    pub init_key: Vec<u8>,
}

/// Removal of the member at a leaf.
#[derive(Debug)]
pub struct RemoveProposal {
    pub removed: u32,
}

impl RemoveProposal {
    /// The leaf index of the removed member.
    pub fn removed(&self) -> (r: u32)
        ensures
            r == self.removed,
    {
        self.removed
    }
}

/// A requested change to the group.
#[derive(Debug)]
pub enum Proposal {
    Add(KeyPackage),
    Update(LeafNode),
    Remove(RemoveProposal),
    PreSharedKey(Vec<u8>),
    ReInit(Vec<u8>),
    ExternalInit(Vec<u8>),
    GroupContextExtensions(Extensions),
}

/// The kinds of proposals.
#[derive(Debug, PartialEq, Eq, Clone, Copy, Structural)]
pub enum ProposalType {
    Add,
    Update,
    Remove,
    PreSharedKey,
    ReInit,
    ExternalInit,
    GroupContextExtensions,
}

impl Proposal {
    /// The kind of this proposal.
    pub open spec fn spec_type(&self) -> ProposalType {
        match self {
            Proposal::Add(_) => ProposalType::Add,
            Proposal::Update(_) => ProposalType::Update,
            Proposal::Remove(_) => ProposalType::Remove,
            Proposal::PreSharedKey(_) => ProposalType::PreSharedKey,
            Proposal::ReInit(_) => ProposalType::ReInit,
            Proposal::ExternalInit(_) => ProposalType::ExternalInit,
            Proposal::GroupContextExtensions(_) => ProposalType::GroupContextExtensions,
        }
    }

    /// The kind of this proposal.
    pub fn proposal_type(&self) -> (r: ProposalType)
        ensures
            r == self.spec_type(),
    {
        match self {
            Proposal::Add(_) => ProposalType::Add,
            Proposal::Update(_) => ProposalType::Update,
            Proposal::Remove(_) => ProposalType::Remove,
            Proposal::PreSharedKey(_) => ProposalType::PreSharedKey,
            Proposal::ReInit(_) => ProposalType::ReInit,
            Proposal::ExternalInit(_) => ProposalType::ExternalInit,
            Proposal::GroupContextExtensions(_) => ProposalType::GroupContextExtensions,
        }
    }

    /// Whether this proposal is of kind `t`.
    pub fn is_type(&self, t: ProposalType) -> (r: bool)
        ensures
            r == (self.spec_type() == t),
    {
        self.proposal_type() == t
    }
}

/// Whether a proposal of this kind obliges the commit to carry a path.
pub open spec fn type_requires_path(t: ProposalType) -> bool {
    match t {
        ProposalType::Update | ProposalType::Remove | ProposalType::ExternalInit
        | ProposalType::GroupContextExtensions => true,
        _ => false,
    }
}

impl ProposalType {
    /// Whether a proposal of this kind obliges the commit to carry a path.
    pub fn requires_path(&self) -> (r: bool)
        ensures
            r == type_requires_path(*self),
    {
        match self {
            ProposalType::Update | ProposalType::Remove | ProposalType::ExternalInit
            | ProposalType::GroupContextExtensions => true,
            _ => false,
        }
    }
}

/// Whether a commit over these proposals (each with its proposer) must carry
/// a path: it must where any of them is an update, a remove, an external
/// init or a change of the extensions.
pub open spec fn spec_path_required(proposals: Seq<(u32, &Proposal)>) -> bool {
    exists|i: int| 0 <= i < proposals.len() && type_requires_path(#[trigger] proposals[i].1.spec_type())
}

/// Decides whether a commit over `proposals` must carry a path.
pub fn path_required(proposals: &Vec<(u32, &Proposal)>) -> (r: bool)
    ensures
        r == spec_path_required(proposals@),
{
    let mut i: usize = 0;
    while i < proposals.len()
        invariant
            i <= proposals@.len(),
            forall|k: int| 0 <= k < i ==> !type_requires_path(#[trigger] proposals@[k].1.spec_type()),
        decreases proposals@.len() - i,
    {
        if proposals[i].1.proposal_type().requires_path() {
            return true;
        }
        i = i + 1;
    }
    false
}

/// A pending proposal: the proposal, who sent it, and the reference by which
/// a commit names it.
#[derive(Debug)]
pub struct QueuedProposal {
    pub reference: Vec<u8>,
    pub sender: u32,
    pub proposal: Proposal,
}

/// The pending proposals of a group, at most one per reference, in the order
/// in which they arrived.
#[derive(Debug)]
pub struct ProposalStore {
    queue: Vec<QueuedProposal>,
}

/// Whether no reference occurs twice.
pub open spec fn refs_unique(refs: Seq<Seq<u8>>) -> bool {
    forall|i: int, j: int| 0 <= i < refs.len() && 0 <= j < refs.len() && i != j ==> refs[i] != refs[j]
}

/// The entries of `s` that `drop` does not hold, in order.
pub open spec fn without(s: Seq<Seq<u8>>, drop: Seq<Seq<u8>>) -> Seq<Seq<u8>> {
    s.filter(|r: Seq<u8>| !drop.contains(r))
}

impl ProposalStore {
    /// The references of the stored proposals, in order.
    pub closed spec fn refs(&self) -> Seq<Seq<u8>> {
        self.queue@.map_values(|q: QueuedProposal| q.reference@)
    }

    /// The stored proposal at position `i`.
    pub closed spec fn entry(&self, i: int) -> &QueuedProposal {
        &self.queue@[i]
    }

    /// The position of the proposal with reference `r`, if any.
    pub open spec fn position_of(&self, r: Seq<u8>) -> Option<int> {
        if self.refs().contains(r) {
            Some(choose|i: int| 0 <= i < self.refs().len() && self.refs()[i] == r)
        } else {
            None
        }
    }

    /// The store's invariant: references are unique.
    pub open spec fn wf(&self) -> bool {
        refs_unique(self.refs())
    }

    /// An empty store.
    pub fn new() -> (r: ProposalStore)
        ensures
            r.wf(),
            r.refs() == Seq::<Seq<u8>>::empty(),
    {
        let r = ProposalStore { queue: Vec::new() };
        assert(r.refs() =~= Seq::<Seq<u8>>::empty());
        r
    }

    /// The number of stored proposals.
    pub fn len(&self) -> (r: usize)
        ensures
            r == self.refs().len(),
    {
        self.queue.len()
    }

    /// Whether `reference` names a stored proposal.
    pub fn contains(&self, reference: &Vec<u8>) -> (r: bool)
        ensures
            r == self.refs().contains(reference@),
    {
        self.index_of(reference).is_some()
    }

    /// The position of the proposal that `reference` names.
    fn index_of(&self, reference: &Vec<u8>) -> (r: Option<usize>)
        ensures
            r is Some <==> self.refs().contains(reference@),
            r is Some ==> r->Some_0 < self.refs().len() && self.refs()[r->Some_0 as int]
                == reference@,
    {
        let mut i: usize = 0;
        while i < self.queue.len()
            invariant
                i <= self.queue@.len(),
                self.refs().len() == self.queue@.len(),
                forall|k: int| 0 <= k < i ==> self.refs()[k] != reference@,
            decreases self.queue@.len() - i,
        {
            assert(self.refs()[i as int] == self.queue@[i as int].reference@);
            if bytes_equal(&self.queue[i].reference, reference) {
                return Some(i);
            }
            i = i + 1;
        }
        proof {
            if self.refs().contains(reference@) {
                let k = choose|k: int| 0 <= k < self.refs().len() && self.refs()[k] == reference@;
                assert(self.refs()[k] != reference@);
            }
        }
        None
    }

    /// The stored proposal that `reference` names, if any.
    pub fn get(&self, reference: &Vec<u8>) -> (r: Option<&QueuedProposal>)
        requires
            self.wf(),
        ensures
            r is Some <==> self.refs().contains(reference@),
            r is Some ==> r->Some_0 == self.entry(self.position_of(reference@)->Some_0),
            r is Some ==> r->Some_0.reference@ == reference@,
    {
        match self.index_of(reference) {
            Some(i) => {
                let ghost p = self.position_of(reference@)->Some_0;
                assert(self.refs()[p] == reference@);
                assert(p == i as int);
                assert(self.refs()[i as int] == self.queue@[i as int].reference@);
                Some(&self.queue[i])
            },
            None => None,
        }
    }

    /// Stores `proposal` unless its reference is already stored; returns
    /// whether it was stored.
    pub fn add(&mut self, proposal: QueuedProposal) -> (r: bool)
        requires
            old(self).wf(),
        ensures
            final(self).wf(),
            r == !old(self).refs().contains(proposal.reference@),
            r ==> final(self).refs() == old(self).refs().push(proposal.reference@),
            !r ==> final(self).refs() == old(self).refs(),
    {
        if self.contains(&proposal.reference) {
            return false;
        }
        let ghost pr = proposal.reference@;
        self.queue.push(proposal);
        assert(self.refs() =~= old(self).refs().push(pr));
        true
    }

    /// Drops the proposals whose references are in `committed`; the others
    /// stay, in their order.
    #[verifier::loop_isolation(false)]
    pub fn remove_committed(&mut self, committed: &Vec<Vec<u8>>)
        requires
            old(self).wf(),
        ensures
            final(self).wf(),
            final(self).refs() == without(
                old(self).refs(),
                committed@.map_values(|c: Vec<u8>| c@),
            ),
    {
        let ghost drop = committed@.map_values(|c: Vec<u8>| c@);
        let ghost orig = self.refs();
        let mut old_queue: Vec<QueuedProposal> = Vec::new();
        std::mem::swap(&mut old_queue, &mut self.queue);
        assert(old_queue@.map_values(|q: QueuedProposal| q.reference@) == orig);
        let mut kept: Vec<QueuedProposal> = Vec::new();
        let mut rest = old_queue;
        let ghost total = rest@;
        let n = rest.len();
        let mut i: usize = 0;
        while rest.len() > 0
            invariant
                total.map_values(|q: QueuedProposal| q.reference@) == orig,
                refs_unique(orig),
                i + rest@.len() == total.len(),
                total.len() == n,
                rest@ == total.subrange(i as int, total.len() as int),
                kept@.map_values(|q: QueuedProposal| q.reference@) == without(
                    orig.subrange(0, i as int),
                    drop,
                ),
            decreases rest@.len(),
        {
            let q = rest.remove(0);
            assert(rest@ =~= total.subrange(i + 1, total.len() as int));
            assert(q == total[i as int]);
            let mut found = false;
            let mut j: usize = 0;
            while j < committed.len()
                invariant
                    j <= committed@.len(),
                    drop == committed@.map_values(|c: Vec<u8>| c@),
                    found == exists|k: int| 0 <= k < j && drop[k] == q.reference@,
                decreases committed@.len() - j,
            {
                assert(drop[j as int] == committed@[j as int]@);
                if bytes_equal(&committed[j], &q.reference) {
                    found = true;
                }
                j = j + 1;
                assert(found == exists|k: int| 0 <= k < j && drop[k] == q.reference@) by {
                    if found && !(exists|k: int| 0 <= k < j - 1 && drop[k] == q.reference@) {
                        assert(drop[j - 1] == q.reference@);
                    }
                }
            }
            proof {
                assert(found == drop.contains(q.reference@));
                assert(orig.subrange(0, i + 1).drop_last() =~= orig.subrange(0, i as int));
                assert(orig[i as int] == q.reference@);
                reveal(Seq::filter);
            }
            if !found {
                kept.push(q);
            }
            proof {
                assert(kept@.map_values(|q: QueuedProposal| q.reference@) =~= without(
                    orig.subrange(0, i + 1),
                    drop,
                ));
            }
            i = i + 1;
        }
        proof {
            assert(orig.subrange(0, i as int) =~= orig);
            lemma_without_unique(orig, drop);
        }
        self.queue = kept;
    }
}

/// Whether two byte strings are equal.
pub fn bytes_equal(a: &Vec<u8>, b: &Vec<u8>) -> (r: bool)
    ensures
        r == (a@ == b@),
{
    if a.len() != b.len() {
        return false;
    }
    let mut i: usize = 0;
    while i < a.len()
        invariant
            a@.len() == b@.len(),
            i <= a@.len(),
            forall|k: int| 0 <= k < i ==> a@[k] == b@[k],
        decreases a@.len() - i,
    {
        if a[i] != b[i] {
            return false;
        }
        i = i + 1;
    }
    assert(a@ =~= b@);
    true
}

/// After a commit that names some of the stored proposals, a stored
/// proposal stays in the store exactly when the commit did not name it.
pub proof fn lemma_partial_commit_keeps_complement(stored: Seq<Seq<u8>>, committed: Seq<Seq<u8>>, r: Seq<u8>)
    ensures
        without(stored, committed).contains(r) <==> (stored.contains(r) && !committed.contains(r)),
{
    let pred = |x: Seq<u8>| !committed.contains(x);
    if without(stored, committed).contains(r) {
        stored.lemma_filter_contains_rev(pred, r);
    }
    if stored.contains(r) && !committed.contains(r) {
        let i = choose|i: int| 0 <= i < stored.len() && stored[i] == r;
        stored.lemma_filter_contains(pred, i);
    }
}

/// Dropping entries keeps references unique.
proof fn lemma_without_unique(s: Seq<Seq<u8>>, drop: Seq<Seq<u8>>)
    requires
        refs_unique(s),
    ensures
        refs_unique(without(s, drop)),
    decreases s.len(),
{
    reveal(Seq::filter);
    if s.len() > 0 {
        lemma_without_unique(s.drop_last(), drop);
        let w = without(s.drop_last(), drop);
        assert forall|x: Seq<u8>| w.contains(x) implies s.drop_last().contains(x) by {
            s.drop_last().lemma_filter_contains_rev(|r: Seq<u8>| !drop.contains(r), x);
        }
        if !drop.contains(s.last()) {
            if s.drop_last().contains(s.last()) {
                let k = choose|k: int| 0 <= k < s.drop_last().len() && s.drop_last()[k] == s.last();
                assert(s[k] == s[s.len() - 1]);
            }
            assert(!w.contains(s.last()));
            assert(without(s, drop) =~= w.push(s.last()));
            let v = w.push(s.last());
            assert forall|i: int, j: int|
                0 <= i < v.len() && 0 <= j < v.len() && i != j implies v[i] != v[j] by {
                if i == v.len() - 1 {
                    assert(w[j] == v[j]);
                } else if j == v.len() - 1 {
                    assert(w[i] == v[i]);
                }
            }
        } else {
            assert(without(s, drop) =~= w);
        }
    }
}

} // verus!
