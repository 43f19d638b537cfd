//! The public state of a group: its ratchet tree, group context, interim
//! transcript hash and latest confirmation tag. It changes only by merging a
//! staged diff.

use vstd::prelude::*;
use crate::codec::{be_bytes, enc_vec, encode_be, encode_vector, vec_fits};
use crate::crypto::CryptoProvider;
use crate::group_context::{
    enc_extensions, enc_group_context, extensions_fit, group_context_fits, ExtensionView, Extensions, GroupContext, GroupContextView,
    GroupId, ProtocolVersion, RequiredCapabilitiesExtension,
};
use crate::commit::{
    apply_all, apply_proposals, check_no_self_removal, commit_refs, commit_refs_upto,
    extensions_after, leaf_count_of, new_extensions, refs_found, removes, resolve_one,
    resolve_proposals, Commit, ProposalOrRef, StageCommitError, UpdatePathError,
};
use crate::proposals::{path_required, spec_path_required, without, Proposal, ProposalStore};
use crate::tree::{
    enc_opt_node, lemma_pow2_half, lemma_subtree_hash_depends_on_encodings, root_half, root_slot,
    all_nodes_fit, credentials_ok, signatures_ok, tree_chain_ok, chain_private_key, some_key_differs, chain_key, copy_bytes, leaf_at, members_upto, nodes_well_formed, opt_node_view,
    parent_key_is, secret_chain, shared_path, spec_free_leaf, spec_install_direct_path,
    tree_depth, tree_hash_of, DerivePathError, EncryptionKeyPair, Member, Node, NodeView,
    TreeSync, TreeSyncError,
};
use crate::types::{Ciphersuite, CryptoError};

verus! {

/// The MAC that confirms an epoch.
#[derive(Debug)]
pub struct ConfirmationTag {
    pub mac_value: Vec<u8>,
}

impl ConfirmationTag {
    /// A copy of this tag.
    pub fn duplicate(&self) -> (r: ConfirmationTag)
        ensures
            r.mac_value@ == self.mac_value@,
    {
        ConfirmationTag { mac_value: copy_bytes(&self.mac_value) }
    }
}

/// The signed content of a group info.
#[derive(Debug)]
pub struct GroupInfo {
    pub group_context: GroupContext,
    pub extensions: Extensions,
    pub confirmation_tag: ConfirmationTag,
    pub signer: u32,
}

/// A group info as received: its content and the signature over it, not yet
/// checked.
#[derive(Debug)]
pub struct VerifiableGroupInfo {
    pub payload: GroupInfo,
    pub signature: Vec<u8>,
}

/// The bytes that the signer of a group info signs.
pub open spec fn enc_group_info_tbs(g: GroupInfo) -> Seq<u8> {
    enc_group_context(g.group_context@) + enc_extensions(g.extensions@) + enc_vec(
        g.confirmation_tag.mac_value@,
    ) + be_bytes(g.signer as nat, 4)
}

/// Whether every vector of a group info's signed content can be encoded.
pub open spec fn group_info_fits(g: GroupInfo) -> bool {
    group_context_fits(g.group_context@) && extensions_fit(g.extensions@) && vec_fits(
        g.confirmation_tag.mac_value@,
    )
}

impl GroupInfo {
    /// Encodes the content that the signer signs.
    pub fn encode_tbs(&self) -> (r: Option<Vec<u8>>)
        ensures
            r is Some <==> group_info_fits(*self),
            r is Some ==> r->Some_0@ == enc_group_info_tbs(*self),
    {
        let mut out = match self.group_context.encode() {
            Ok(b) => b,
            Err(_) => return None,
        };
        let mut b = match self.extensions.encode() {
            Ok(b) => b,
            Err(_) => return None,
        };
        out.append(&mut b);
        let mut b = match encode_vector(self.confirmation_tag.mac_value.as_slice()) {
            Ok(b) => b,
            Err(_) => return None,
        };
        out.append(&mut b);
        let mut b = encode_be(self.signer as u64, 4);
        out.append(&mut b);
        Some(out)
    }
}

impl VerifiableGroupInfo {
    /// The ciphersuite the group info announces.
    pub fn ciphersuite(&self) -> (r: Ciphersuite)
        ensures
            r == self.payload.group_context.ciphersuite,
    {
        self.payload.group_context.ciphersuite
    }

    /// The leaf index of the member that signed.
    pub fn signer(&self) -> (r: u32)
        ensures
            r == self.payload.signer,
    {
        self.payload.signer
    }
}

/// The interim transcript hash input that a confirmation tag gives.
pub open spec fn interim_input(confirmed_transcript_hash: Seq<u8>, tag: Seq<u8>) -> Seq<u8> {
    confirmed_transcript_hash + enc_vec(tag)
}

/// Errors of building a public group from a group info.
#[derive(Debug, PartialEq, Eq, Clone, Copy, Structural)]
pub enum CreationFromExternalError {
    /// The nodes do not form a ratchet tree.
    TreeSyncError(TreeSyncError),
    /// The signer's leaf is blank or outside the tree.
    UnknownSender,
    /// The group info's signature does not verify.
    InvalidGroupInfoSignature,
    /// The tree's hash differs from the one in the group context.
    TreeHashMismatch,
    /// The group uses a protocol version other than MLS 1.0.
    UnsupportedMlsVersion,
    /// The group info cannot be encoded.
    LibraryError,
    /// The provider failed.
    Crypto(CryptoError),
}

/// Whether nodes form a tree that `TreeSync::from_nodes` accepts: its
/// shape, encodings, credentials, leaf signatures and parent-hash links.
pub open spec fn tree_valid<P: CryptoProvider>(p: P, cs: Ciphersuite, v: Seq<Option<NodeView>>) -> bool {
    &&& nodes_well_formed(v)
    &&& all_nodes_fit(v)
    &&& credentials_ok(v)
    &&& signatures_ok(p, cs, v)
    &&& tree_chain_ok(p, cs.spec_hash_algorithm(), v)
}

/// The checks of a group info that follow its signature check: the
/// signature must have verified, the tree's hash must equal the context's,
/// and the version must be MLS 1.0, in that order.
pub fn check_group_info(
    signature_valid: bool,
    tree_hash: &Vec<u8>,
    context: &GroupContext,
) -> (r: Result<(), CreationFromExternalError>)
    ensures
        !signature_valid <==> r == Err::<(), _>(CreationFromExternalError::InvalidGroupInfoSignature),
        (signature_valid && tree_hash@ != context.tree_hash@) <==> r == Err::<(), _>(
            CreationFromExternalError::TreeHashMismatch,
        ),
        (signature_valid && tree_hash@ == context.tree_hash@ && context.protocol_version
            != ProtocolVersion::Mls10) <==> r == Err::<(), _>(
            CreationFromExternalError::UnsupportedMlsVersion,
        ),
        r is Ok <==> (signature_valid && tree_hash@ == context.tree_hash@ && context.protocol_version
            == ProtocolVersion::Mls10),
{
    if !signature_valid {
        return Err(CreationFromExternalError::InvalidGroupInfoSignature);
    }
    if !crate::proposals::bytes_equal(tree_hash, &context.tree_hash) {
        return Err(CreationFromExternalError::TreeHashMismatch);
    }
    if context.protocol_version != ProtocolVersion::Mls10 {
        return Err(CreationFromExternalError::UnsupportedMlsVersion);
    }
    Ok(())
}

/// What a public group holds, as values.
pub struct PublicGroupView {
    pub nodes: Seq<Option<NodeView>>,
    pub group_context: GroupContextView,
    pub interim_transcript_hash: Seq<u8>,
    pub confirmation_tag: Seq<u8>,
}

/// This struct holds all public values of an MLS group.
#[derive(Debug)]
pub struct PublicGroup {
    treesync: TreeSync,
    group_context: GroupContext,
    interim_transcript_hash: Vec<u8>,
    confirmation_tag: ConfirmationTag,
}

/// A diff under construction: a copy of a group's state that staging changes.
#[derive(Debug)]
pub struct PublicGroupDiff {
    pub(crate) treesync: TreeSync,
    pub(crate) group_context: GroupContext,
    pub(crate) interim_transcript_hash: Vec<u8>,
    pub(crate) confirmation_tag: ConfirmationTag,
}

/// A sealed diff, ready to be merged into its group.
#[derive(Debug)]
pub struct StagedPublicGroupDiff {
    pub(crate) treesync: TreeSync,
    pub(crate) group_context: GroupContext,
    pub(crate) interim_transcript_hash: Vec<u8>,
    pub(crate) confirmation_tag: ConfirmationTag,
}

impl View for PublicGroup {
    type V = PublicGroupView;

    closed spec fn view(&self) -> PublicGroupView {
        PublicGroupView {
            nodes: self.treesync.view_nodes(),
            group_context: self.group_context@,
            interim_transcript_hash: self.interim_transcript_hash@,
            confirmation_tag: self.confirmation_tag.mac_value@,
        }
    }
}

impl View for PublicGroupDiff {
    type V = PublicGroupView;

    closed spec fn view(&self) -> PublicGroupView {
        PublicGroupView {
            nodes: self.treesync.view_nodes(),
            group_context: self.group_context@,
            interim_transcript_hash: self.interim_transcript_hash@,
            confirmation_tag: self.confirmation_tag.mac_value@,
        }
    }
}

impl View for StagedPublicGroupDiff {
    type V = PublicGroupView;

    closed spec fn view(&self) -> PublicGroupView {
        PublicGroupView {
            nodes: self.treesync.view_nodes(),
            group_context: self.group_context@,
            interim_transcript_hash: self.interim_transcript_hash@,
            confirmation_tag: self.confirmation_tag.mac_value@,
        }
    }
}

impl PublicGroupDiff {
    /// The diff's invariant: its tree is well formed.
    pub closed spec fn wf(&self) -> bool {
        self.treesync.wf()
    }

    /// Seals the diff.
    pub fn into_staged_diff(self) -> (r: StagedPublicGroupDiff)
        ensures
            r@ == self@,
            r.wf() == self.wf(),
    {
        StagedPublicGroupDiff {
            treesync: self.treesync,
            group_context: self.group_context,
            interim_transcript_hash: self.interim_transcript_hash,
            confirmation_tag: self.confirmation_tag,
        }
    }
}

impl StagedPublicGroupDiff {
    /// The staged diff's invariant: its tree is well formed.
    pub closed spec fn wf(&self) -> bool {
        self.treesync.wf()
    }

    /// The group context the merge will install.
    pub fn group_context(&self) -> (r: &GroupContext)
        ensures
            r@ == self@.group_context,
    {
        &self.group_context
    }
}

/// The state that merging `d` into `g` leaves: everything is taken from the
/// diff.
pub open spec fn spec_merge(g: PublicGroupView, d: PublicGroupView) -> PublicGroupView {
    d
}

/// Merging a diff that was taken from a group and not changed leaves the
/// group as it was.
pub proof fn lemma_merge_empty_diff_is_identity(g: PublicGroupView, d: PublicGroupView)
    requires
        d == g,
    ensures
        spec_merge(g, d) == g,
{
}

/// Two members of one epoch, whose group contexts carry the tree hash that
/// `from_external` or `process_commit` computed over their trees with one
/// provider, and whose trees hold nodes with the same encoding slot by
/// slot, carry byte-identical tree hashes.
pub proof fn lemma_members_agree_on_tree_hash<P: CryptoProvider>(
    p: P,
    a: PublicGroupView,
    b: PublicGroupView,
)
    requires
        nodes_well_formed(a.nodes),
        nodes_well_formed(b.nodes),
        a.group_context.ciphersuite == b.group_context.ciphersuite,
        a.nodes.len() == b.nodes.len(),
        forall|i: int| 0 <= i < a.nodes.len() ==> enc_opt_node(#[trigger] a.nodes[i]) == enc_opt_node(b.nodes[i]),
        a.group_context.tree_hash == tree_hash_of(p, a.group_context.ciphersuite.spec_hash_algorithm(), a.nodes),
        b.group_context.tree_hash == tree_hash_of(p, b.group_context.ciphersuite.spec_hash_algorithm(), b.nodes),
    ensures
        a.group_context.tree_hash == b.group_context.tree_hash,
{
    let len = a.nodes.len();
    lemma_pow2_half(((len + 1) / 2) as nat);
    lemma_subtree_hash_depends_on_encodings(
        p,
        a.group_context.ciphersuite.spec_hash_algorithm(),
        a.nodes,
        b.nodes,
        root_slot(len),
        root_half(len),
    );
}

/// The first remove among `s`, as the index of the leaf it removes.
pub open spec fn first_removed(s: Seq<Option<&Proposal>>) -> Option<u32>
    decreases s.len(),
{
    if s.len() == 0 {
        None
    } else {
        match s[0] {
            Some(Proposal::Remove(rp)) => Some(rp.removed),
            _ => first_removed(s.drop_first()),
        }
    }
}

/// The leaf that an external commit's sender takes: the leaf of the first
/// remove where it lies left of the free leaf, else the free leaf.
pub open spec fn spec_joiner_leaf(free: nat, s: Seq<Option<&Proposal>>) -> nat {
    match first_removed(s) {
        Some(i) => if (i as nat) < free {
            i as nat
        } else {
            free
        },
        None => free,
    }
}

/// Errors that indicate a broken internal invariant.
#[derive(Debug, PartialEq, Eq, Clone, Copy, Structural)]
pub enum LibraryError {
    /// A proposal of one kind turned out to be of another.
    MissingKeyPackage,
}

impl PublicGroup {
    /// The group's invariant: its tree is well formed.
    pub closed spec fn wf(&self) -> bool {
        self.treesync.wf()
    }

    /// Create a new public group from a tree and a group context, with an
    /// empty interim transcript hash.
    pub fn new(
        treesync: TreeSync,
        group_context: GroupContext,
        initial_confirmation_tag: ConfirmationTag,
    ) -> (r: PublicGroup)
        requires
            treesync.wf(),
        ensures
            r.wf(),
            r@ == (PublicGroupView {
                nodes: treesync.view_nodes(),
                group_context: group_context@,
                interim_transcript_hash: Seq::empty(),
                confirmation_tag: initial_confirmation_tag.mac_value@,
            }),
    {
        let interim_transcript_hash: Vec<u8> = Vec::new();
        let r = PublicGroup {
            treesync,
            group_context,
            interim_transcript_hash,
            confirmation_tag: initial_confirmation_tag,
        };
        assert(r@.interim_transcript_hash =~= Seq::<u8>::empty());
        r
    }

    /// Rebuilds a public group from its four parts, as persisted.
    pub fn from_parts(
        treesync: TreeSync,
        group_context: GroupContext,
        interim_transcript_hash: Vec<u8>,
        confirmation_tag: ConfirmationTag,
    ) -> (r: PublicGroup)
        requires
            treesync.wf(),
        ensures
            r.wf(),
            r@ == (PublicGroupView {
                nodes: treesync.view_nodes(),
                group_context: group_context@,
                interim_transcript_hash: interim_transcript_hash@,
                confirmation_tag: confirmation_tag.mac_value@,
            }),
    {
        PublicGroup { treesync, group_context, interim_transcript_hash, confirmation_tag }
    }

    /// Create a public group to start tracking an existing group from its
    /// tree and a signed group info. The tree must be well formed, the
    /// signer's leaf populated, the signature valid, the tree hash equal to
    /// the context's and the version MLS 1.0, checked in that order.
    #[verifier::spinoff_prover]
    #[verifier::rlimit(60)]
    pub fn from_external<P: CryptoProvider>(
        provider: &P,
        nodes: Vec<Option<Node>>,
        verifiable_group_info: VerifiableGroupInfo,
    ) -> (r: Result<(PublicGroup, Extensions), CreationFromExternalError>)
        ensures
            ({
                let v = nodes@.map_values(|o: Option<Node>| opt_node_view(o));
                let gi = verifiable_group_info.payload;
                let ctx = gi.group_context@;
                let alg = ctx.ciphersuite.spec_hash_algorithm();
                let tv = tree_valid(*provider, ctx.ciphersuite, v);
                let known = leaf_at(v, gi.signer as int) is Some;
                let sig_ok = provider.signature_ok(
                    ctx.ciphersuite.spec_signature_algorithm(),
                    leaf_at(v, gi.signer as int)->Some_0.signature_key,
                    enc_group_info_tbs(gi),
                    verifiable_group_info.signature@,
                );
                let tree_failed = r is Err && r->Err_0 is TreeSyncError && r->Err_0->TreeSyncError_0 is Crypto;
                let crypto_failed = r is Err && r->Err_0 is Crypto;
                &&& (!nodes_well_formed(v) <==> r == Err::<(PublicGroup, Extensions), _>(
                    CreationFromExternalError::TreeSyncError(TreeSyncError::MalformedTree),
                ))
                &&& (r is Err && r->Err_0 is TreeSyncError) ==> (!tv || tree_failed)
                &&& (tv && !tree_failed) ==> !(r is Err && r->Err_0 is TreeSyncError)
                &&& r == Err::<(PublicGroup, Extensions), _>(CreationFromExternalError::UnknownSender)
                    ==> (tv && !known)
                &&& (tv && !known && !tree_failed) ==> r == Err::<(PublicGroup, Extensions), _>(
                    CreationFromExternalError::UnknownSender,
                )
                &&& r == Err::<(PublicGroup, Extensions), _>(CreationFromExternalError::LibraryError)
                    <==> (tv && known && !group_info_fits(gi) && !tree_failed)
                &&& (tv && known && group_info_fits(gi) && !tree_failed) ==> (r == Err::<
                    (PublicGroup, Extensions),
                    _,
                >(CreationFromExternalError::InvalidGroupInfoSignature) <==> !sig_ok)
                &&& (tv && known && group_info_fits(gi) && !tree_failed && sig_ok && !crypto_failed)
                    ==> {
                    &&& (r == Err::<(PublicGroup, Extensions), _>(
                        CreationFromExternalError::TreeHashMismatch,
                    ) <==> tree_hash_of(*provider, alg, v) != ctx.tree_hash)
                    &&& (r == Err::<(PublicGroup, Extensions), _>(
                        CreationFromExternalError::UnsupportedMlsVersion,
                    ) <==> (tree_hash_of(*provider, alg, v) == ctx.tree_hash && ctx.protocol_version
                        != ProtocolVersion::Mls10))
                    &&& (r is Ok <==> (tree_hash_of(*provider, alg, v) == ctx.tree_hash
                        && ctx.protocol_version == ProtocolVersion::Mls10))
                }
                &&& r == Err::<(PublicGroup, Extensions), _>(
                    CreationFromExternalError::TreeHashMismatch,
                ) ==> tree_hash_of(*provider, alg, v) != ctx.tree_hash
                &&& r == Err::<(PublicGroup, Extensions), _>(
                    CreationFromExternalError::UnsupportedMlsVersion,
                ) ==> ctx.protocol_version != ProtocolVersion::Mls10
                &&& r is Ok ==> {
                    let g = r->Ok_0.0;
                    &&& g.wf()
                    &&& tv
                    &&& leaf_at(v, gi.signer as int) is Some
                    &&& provider.signature_ok(
                        ctx.ciphersuite.spec_signature_algorithm(),
                        leaf_at(v, gi.signer as int)->Some_0.signature_key,
                        enc_group_info_tbs(gi),
                        verifiable_group_info.signature@,
                    )
                    &&& ctx.protocol_version == ProtocolVersion::Mls10
                    &&& ctx.tree_hash == tree_hash_of(*provider, alg, v)
                    &&& g@.nodes == v
                    &&& g@.group_context == ctx
                    &&& g@.confirmation_tag == gi.confirmation_tag.mac_value@
                    &&& g@.interim_transcript_hash == if ctx.epoch == 0 {
                        Seq::empty()
                    } else {
                        provider.digest(
                            alg,
                            interim_input(ctx.confirmed_transcript_hash, g@.confirmation_tag),
                        )
                    }
                    &&& r->Ok_0.1@ == gi.extensions@
                }
            }),
    {
        let ciphersuite = verifiable_group_info.ciphersuite();
        let treesync = match TreeSync::from_nodes(provider, ciphersuite, nodes) {
            Ok(t) => t,
            Err(e) => return Err(CreationFromExternalError::TreeSyncError(e)),
        };
        let signer_key = match treesync.leaf(verifiable_group_info.signer()) {
            Some(leaf) => copy_bytes(&leaf.signature_key),
            None => return Err(CreationFromExternalError::UnknownSender),
        };
        let tbs = match verifiable_group_info.payload.encode_tbs() {
            Some(b) => b,
            None => return Err(CreationFromExternalError::LibraryError),
        };
        assert(verifiable_group_info.payload.group_context.ciphersuite == ciphersuite);
        let verified = provider.verify_signature(
            ciphersuite.signature_algorithm(),
            signer_key.as_slice(),
            tbs.as_slice(),
            verifiable_group_info.signature.as_slice(),
        );
        let group_info = verifiable_group_info.payload;
        let alg = ciphersuite.hash_algorithm();
        let signature_valid = verified.is_ok();
        let tree_hash = if signature_valid {
            match treesync.tree_hash(provider, alg) {
                Ok(h) => h,
                Err(TreeSyncError::Crypto(e)) => return Err(CreationFromExternalError::Crypto(e)),
                Err(_) => return Err(CreationFromExternalError::LibraryError),
            }
        } else {
            Vec::new()
        };
        check_group_info(signature_valid, &tree_hash, &group_info.group_context)?;
        let GroupInfo { group_context: gc, extensions, confirmation_tag, signer: _ } = group_info;
        let group_context = GroupContext::new(
            ciphersuite,
            gc.group_id,
            gc.epoch,
            tree_hash,
            gc.confirmed_transcript_hash,
            gc.extensions,
        );
        let interim_transcript_hash = if group_context.epoch == 0 {
            Vec::new()
        } else {
            let mut input = copy_bytes(&group_context.confirmed_transcript_hash);
            let mut tag_bytes = match encode_vector(confirmation_tag.mac_value.as_slice()) {
                Ok(b) => b,
                Err(_) => return Err(CreationFromExternalError::LibraryError),
            };
            input.append(&mut tag_bytes);
            match provider.hash(alg, input.as_slice()) {
                Ok(h) => h,
                Err(e) => return Err(CreationFromExternalError::Crypto(e)),
            }
        };
        let g = PublicGroup { treesync, group_context, interim_transcript_hash, confirmation_tag };
        assert(g@.interim_transcript_hash == if g@.group_context.epoch == 0 {
            Seq::empty()
        } else {
            provider.digest(
                alg,
                interim_input(g@.group_context.confirmed_transcript_hash, g@.confirmation_tag),
            )
        });
        Ok((g, extensions))
    }

    /// The leaf that the sender of an external commit takes: where the
    /// commit's proposals hold a remove, the leaf of the first one if it lies
    /// left of the leftmost free leaf; otherwise the leftmost free leaf.
    pub fn free_leaf_index(&self, inline_proposals: &Vec<Option<&Proposal>>) -> (r: Result<
        u32,
        LibraryError,
    >)
        requires
            self.wf(),
        ensures
            r is Ok,
            r->Ok_0 == spec_joiner_leaf(spec_free_leaf(self@.nodes), inline_proposals@),
    {
        let free_leaf_index = self.treesync.free_leaf_index();
        let mut i: usize = 0;
        proof {
            assert(inline_proposals@.subrange(0, inline_proposals@.len() as int)
                =~= inline_proposals@);
        }
        while i < inline_proposals.len()
            invariant
                free_leaf_index == spec_free_leaf(self@.nodes),
                i <= inline_proposals@.len(),
                first_removed(inline_proposals@) == first_removed(
                    inline_proposals@.subrange(i as int, inline_proposals@.len() as int),
                ),
            decreases inline_proposals@.len() - i,
        {
            proof {
                let rest = inline_proposals@.subrange(i as int, inline_proposals@.len() as int);
                assert(rest.drop_first() =~= inline_proposals@.subrange(
                    i + 1,
                    inline_proposals@.len() as int,
                ));
                assert(rest[0] == inline_proposals@[i as int]);
            }
            match inline_proposals[i] {
                Some(p) => {
                    if p.is_type(crate::proposals::ProposalType::Remove) {
                        if let Proposal::Remove(remove_proposal) = p {
                            let removed_index = remove_proposal.removed();
                            if removed_index < free_leaf_index {
                                return Ok(removed_index);
                            } else {
                                return Ok(free_leaf_index);
                            }
                        } else {
                            return Err(LibraryError::MissingKeyPackage);
                        }
                    }
                },
                None => {},
            }
            i = i + 1;
        }
        Ok(free_leaf_index)
    }

    /// Create an empty diff based on this group.
    pub fn empty_diff(&self) -> (r: PublicGroupDiff)
        requires
            self.wf(),
        ensures
            r.wf(),
            r@ == self@,
    {
        PublicGroupDiff {
            treesync: self.treesync.duplicate(),
            group_context: self.group_context.duplicate(),
            interim_transcript_hash: copy_bytes(&self.interim_transcript_hash),
            confirmation_tag: self.confirmation_tag.duplicate(),
        }
    }

    /// Merge a staged diff into this group: tree, context, interim
    /// transcript hash and confirmation tag all become the diff's.
    pub fn merge_diff(&mut self, diff: StagedPublicGroupDiff)
        requires
            diff.wf(),
        ensures
            final(self).wf(),
            final(self)@ == spec_merge(old(self)@, diff@),
    {
        self.treesync = diff.treesync;
        self.group_context = diff.group_context;
        self.interim_transcript_hash = diff.interim_transcript_hash;
        self.confirmation_tag = diff.confirmation_tag;
    }

    /// Derives the key pairs of the nodes above both `sender_index` and
    /// `leaf_index`, from their lowest common ancestor up, checking each
    /// public key against the tree; returns them with the commit secret.
    /// A leaf outside the tree, or the same leaf twice (which has no common
    /// ancestor above it), is a `LibraryError`.
    pub fn derive_path_secrets<P: CryptoProvider>(
        &self,
        provider: &P,
        ciphersuite: Ciphersuite,
        path_secret: Vec<u8>,
        sender_index: u32,
        leaf_index: u32,
    ) -> (r: Result<(Vec<EncryptionKeyPair>, Vec<u8>), DerivePathError>)
        requires
            self.wf(),
        ensures
            ((sender_index as nat) >= ((self@.nodes.len() + 1) / 2) as nat || (leaf_index as nat)
                >= ((self@.nodes.len() + 1) / 2) as nat || sender_index == leaf_index) <==> r
                == Err::<(Vec<EncryptionKeyPair>, Vec<u8>), _>(DerivePathError::LibraryError),
            r is Ok ==> {
                let slots = shared_path(self@.nodes.len(), sender_index as nat, leaf_index as nat);
                &&& r->Ok_0.0@.len() == slots.len()
                &&& forall|i: int|
                    0 <= i < slots.len() ==> (#[trigger] r->Ok_0.0@[i]).public_key@ == chain_key(
                        *provider,
                        ciphersuite,
                        path_secret@,
                        i as nat,
                    )
                &&& forall|i: int|
                    0 <= i < slots.len() ==> parent_key_is(
                        self@.nodes,
                        #[trigger] slots[i],
                        chain_key(*provider, ciphersuite, path_secret@, i as nat),
                    )
                &&& forall|i: int|
                    0 <= i < slots.len() ==> (#[trigger] r->Ok_0.0@[i]).private_key@ == chain_private_key(
                        *provider,
                        ciphersuite,
                        path_secret@,
                        i as nat,
                    )
                &&& r->Ok_0.1@ == secret_chain(*provider, ciphersuite, path_secret@, slots.len())
                &&& r->Ok_0.1@.len() == ciphersuite.spec_hash_algorithm().spec_size()
            },
            r == Err::<(Vec<EncryptionKeyPair>, Vec<u8>), _>(DerivePathError::PublicKeyMismatch)
                ==> some_key_differs(
                *provider,
                ciphersuite,
                self@.nodes,
                shared_path(self@.nodes.len(), sender_index as nat, leaf_index as nat),
                path_secret@,
            ),
            (!(r is Err && r->Err_0 is Crypto) && r != Err::<(Vec<EncryptionKeyPair>, Vec<u8>), _>(
                DerivePathError::LibraryError,
            )) ==> (r == Err::<(Vec<EncryptionKeyPair>, Vec<u8>), _>(DerivePathError::PublicKeyMismatch)
                <==> some_key_differs(
                *provider,
                ciphersuite,
                self@.nodes,
                shared_path(self@.nodes.len(), sender_index as nat, leaf_index as nat),
                path_secret@,
            )),
    {
        let r = self.treesync.derive_path_secrets(
            provider,
            ciphersuite,
            path_secret,
            sender_index,
            leaf_index,
        );
        assert(self@.nodes == self.treesync.view_nodes());
        r
    }

    /// All members of this group, in leaf order.
    pub fn members(&self) -> (r: Vec<Member>)
        requires
            self.wf(),
        ensures
            r@.map_values(|m: Member| m@) == members_upto(
                self@.nodes,
                ((self@.nodes.len() + 1) / 2) as nat,
            ),
    {
        self.treesync.full_leaf_members()
    }
}

// Getters
impl PublicGroup {
    pub fn ciphersuite(&self) -> (r: Ciphersuite)
        ensures
            r == self@.group_context.ciphersuite,
    {
        self.group_context.ciphersuite
    }

    pub fn version(&self) -> (r: ProtocolVersion)
        ensures
            r == self@.group_context.protocol_version,
    {
        self.group_context.protocol_version
    }

    pub fn group_id(&self) -> (r: &GroupId)
        ensures
            r.value@ == self@.group_context.group_id,
    {
        &self.group_context.group_id
    }

    pub fn group_context(&self) -> (r: &GroupContext)
        ensures
            r@ == self@.group_context,
    {
        &self.group_context
    }

    pub fn extensions(&self) -> (r: &Extensions)
        ensures
            r@ == self@.group_context.extensions,
    {
        &self.group_context.extensions
    }

    pub fn required_capabilities(&self) -> (r: Option<&RequiredCapabilitiesExtension>)
        ensures
            match crate::group_context::first_required_capabilities(
                self@.group_context.extensions,
            ) {
                None => r is None,
                Some(i) => r is Some && 0 <= i < self@.group_context.extensions.len()
                    && self@.group_context.extensions[i] == ExtensionView::RequiredCapabilities(
                    r->Some_0.extension_types@,
                    r->Some_0.proposal_types@,
                    r->Some_0.credential_types@,
                ),
            },
    {
        self.group_context.extensions.required_capabilities()
    }

    pub fn treesync(&self) -> (r: &TreeSync)
        ensures
            r.view_nodes() == self@.nodes,
            self.wf() ==> r.wf(),
    {
        &self.treesync
    }

    pub fn confirmation_tag(&self) -> (r: &ConfirmationTag)
        ensures
            r.mac_value@ == self@.confirmation_tag,
    {
        &self.confirmation_tag
    }

    pub fn interim_transcript_hash(&self) -> (r: &[u8])
        ensures
            r@ == self@.interim_transcript_hash,
    {
        self.interim_transcript_hash.as_slice()
    }

    /// Mutable access to the group context, for tests that build unusual
    /// states.
    pub fn context_mut(&mut self) -> (r: &mut GroupContext)
        ensures
            (*r)@ == old(self)@.group_context,
    {
        &mut self.group_context
    }
}


/// The proposals a commit stands for, each with its proposer.
pub open spec fn resolved<'a>(store: &'a ProposalStore, commit: &'a Commit, committer: u32) -> Seq<(u32, &'a Proposal)> {
    Seq::new(commit.proposals@.len(), |i: int| resolve_one(store, committer, &commit.proposals@[i]))
}


/// The tree that staging a commit leaves, where its proposals apply: the
/// applied proposals, then, with a path, the committer's new leaf and the
/// path's keys on its direct path.
pub open spec fn staged_nodes(
    nodes: Seq<Option<NodeView>>,
    props: Seq<(u32, &Proposal)>,
    commit: &Commit,
    sender: u32,
) -> Seq<Option<NodeView>> {
    let applied = apply_all(nodes, props)->Some_0;
    match commit.path {
        None => applied,
        Some(path) => spec_install_direct_path(
            applied.update(2 * sender as int, Some(NodeView::Leaf(path.leaf_node@))),
            sender as nat,
            path.nodes@.map_values(|n: crate::commit::UpdatePathNode| n.encryption_key@),
        ),
    }
}

/// The first check that a commit fails before any key derivation, in the
/// order staging runs them, or none.
pub open spec fn first_stage_error(
    nodes: Seq<Option<NodeView>>,
    store: &ProposalStore,
    commit: &Commit,
    sender: u32,
    has_secret: bool,
) -> Option<StageCommitError> {
    let props = resolved(store, commit, sender);
    let applied = apply_all(nodes, props);
    if leaf_at(nodes, sender as int) is None {
        Some(StageCommitError::SenderNotMember)
    } else if !refs_found(store, commit) {
        Some(StageCommitError::ProposalNotFound)
    } else if removes(props, sender) {
        Some(StageCommitError::AttemptedSelfRemoval)
    } else if spec_path_required(props) && commit.path is None {
        Some(StageCommitError::RequiredPathNotFound)
    } else if applied is None {
        Some(StageCommitError::InvalidProposal)
    } else if commit.path is Some && commit.path->Some_0.nodes@.len() != tree_depth(
        leaf_count_of(applied->Some_0),
    ) {
        Some(StageCommitError::UpdatePathError(UpdatePathError::PathLengthMismatch))
    } else if commit.path is Some && !has_secret {
        Some(StageCommitError::UpdatePathError(UpdatePathError::UnableToDecrypt))
    } else {
        None
    }
}

/// Whether `e` is one of the errors that `first_stage_error` decides.
pub open spec fn is_check_error(e: StageCommitError) -> bool {
    match e {
        StageCommitError::SenderNotMember | StageCommitError::ProposalNotFound
        | StageCommitError::AttemptedSelfRemoval | StageCommitError::RequiredPathNotFound
        | StageCommitError::InvalidProposal => true,
        StageCommitError::UpdatePathError(UpdatePathError::PathLengthMismatch)
        | StageCommitError::UpdatePathError(UpdatePathError::UnableToDecrypt) => true,
        _ => false,
    }
}

/// `n` zero bytes.
pub open spec fn zeros(n: nat) -> Seq<u8> {
    Seq::new(n, |i: int| 0u8)
}

/// Writes `n` zero bytes.
fn zero_bytes(n: usize) -> (r: Vec<u8>)
    ensures
        r@ == zeros(n as nat),
{
    let mut v: Vec<u8> = Vec::new();
    let mut i: usize = 0;
    while i < n
        invariant
            i <= n,
            v@ == zeros(i as nat),
        decreases n - i,
    {
        v.push(0u8);
        assert(v@ =~= zeros((i + 1) as nat));
        i = i + 1;
    }
    v
}

/// The references a commit names, in order.
pub fn committed_references(commit: &Commit) -> (r: Vec<Vec<u8>>)
    ensures
        r@.map_values(|c: Vec<u8>| c@) == commit_refs(commit),
{
    let mut out: Vec<Vec<u8>> = Vec::new();
    let mut i: usize = 0;
    while i < commit.proposals.len()
        invariant
            i <= commit.proposals@.len(),
            out@.map_values(|c: Vec<u8>| c@) == commit_refs_upto(commit.proposals@, i as nat),
        decreases commit.proposals@.len() - i,
    {
        match &commit.proposals[i] {
            ProposalOrRef::Reference(r) => {
                let ghost before = out@.map_values(|c: Vec<u8>| c@);
                out.push(copy_bytes(r));
                assert(out@.map_values(|c: Vec<u8>| c@) =~= before.push(r@));
            },
            _ => {},
        }
        i = i + 1;
    }
    out
}

impl PublicGroup {
    /// Stages a commit by the member at `sender`, as the member at
    /// `receiver` sees it: resolves its proposals, checks that the sender
    /// is a member, that every reference is stored, that the sender does
    /// not remove itself and that a path is present where the proposals
    /// demand one; applies the proposals; then, where the commit has a path,
    /// checks its length against the sender's direct path, installs it and
    /// derives from `path_secret` (what the receiver decrypted, if anything)
    /// the keys of the path above both members, which must match. Returns
    /// the diff and the commit secret (zeros where there is no path).
    pub fn stage_commit<P: CryptoProvider>(
        &self,
        provider: &P,
        store: &ProposalStore,
        sender: u32,
        commit: &Commit,
        receiver: u32,
        path_secret: Option<Vec<u8>>,
    ) -> (r: Result<(PublicGroupDiff, Vec<u8>), StageCommitError>)
        requires
            self.wf(),
            store.wf(),
        ensures
            ({
                let nodes = self@.nodes;
                let props = resolved(store, commit, sender);
                let member = leaf_at(nodes, sender as int) is Some;
                let applied = apply_all(nodes, props);
                let cs = self@.group_context.ciphersuite;
                &&& !member <==> r == Err::<(PublicGroupDiff, Vec<u8>), _>(StageCommitError::SenderNotMember)
                &&& (member && !refs_found(store, commit)) <==> r == Err::<(PublicGroupDiff, Vec<u8>), _>(
                    StageCommitError::ProposalNotFound,
                )
                &&& (member && refs_found(store, commit) && removes(props, sender)) <==> r == Err::<
                    (PublicGroupDiff, Vec<u8>),
                    _,
                >(StageCommitError::AttemptedSelfRemoval)
                &&& (member && refs_found(store, commit) && !removes(props, sender) && spec_path_required(props)
                    && commit.path is None) <==> r == Err::<(PublicGroupDiff, Vec<u8>), _>(
                    StageCommitError::RequiredPathNotFound,
                )
                &&& (member && refs_found(store, commit) && !removes(props, sender) && (spec_path_required(props)
                    ==> commit.path is Some) && applied is None) <==> r == Err::<(PublicGroupDiff, Vec<u8>), _>(
                    StageCommitError::InvalidProposal,
                )
                &&& (member && refs_found(store, commit) && !removes(props, sender) && (spec_path_required(props)
                    ==> commit.path is Some) && applied is Some && commit.path is Some
                    && commit.path->Some_0.nodes@.len() != tree_depth(leaf_count_of(applied->Some_0)))
                    <==> r == Err::<(PublicGroupDiff, Vec<u8>), _>(
                    StageCommitError::UpdatePathError(UpdatePathError::PathLengthMismatch),
                )
                &&& r == Err::<(PublicGroupDiff, Vec<u8>), _>(
                    StageCommitError::UpdatePathError(UpdatePathError::UnableToDecrypt),
                ) <==> (member && refs_found(store, commit) && !removes(props, sender) && applied is Some
                    && commit.path is Some && commit.path->Some_0.nodes@.len() == tree_depth(
                    leaf_count_of(applied->Some_0),
                ) && path_secret is None)
                &&& match first_stage_error(nodes, store, commit, sender, path_secret is Some) {
                    Some(e) => r == Err::<(PublicGroupDiff, Vec<u8>), _>(e),
                    None => !(r is Err && is_check_error(r->Err_0)),
                }
                &&& (first_stage_error(nodes, store, commit, sender, path_secret is Some) is None
                    && commit.path is None) ==> r is Ok
                &&& r is Err ==> (is_check_error(r->Err_0) || r->Err_0 is Crypto || r->Err_0
                    == StageCommitError::LibraryError || r->Err_0 == StageCommitError::UpdatePathError(
                    UpdatePathError::PathMismatch,
                ))
                &&& (first_stage_error(nodes, store, commit, sender, path_secret is Some) is None
                    && commit.path is Some && !(r is Err && r->Err_0 is Crypto) && r != Err::<
                    (PublicGroupDiff, Vec<u8>),
                    _,
                >(StageCommitError::LibraryError)) ==> (r == Err::<(PublicGroupDiff, Vec<u8>), _>(
                    StageCommitError::UpdatePathError(UpdatePathError::PathMismatch),
                ) <==> some_key_differs(
                    *provider,
                    cs,
                    staged_nodes(nodes, props, commit, sender),
                    shared_path(staged_nodes(nodes, props, commit, sender).len(), sender as nat, receiver as nat),
                    path_secret->Some_0@,
                ))
                &&& (first_stage_error(nodes, store, commit, sender, path_secret is Some) is None
                    && commit.path is Some) ==> (r == Err::<(PublicGroupDiff, Vec<u8>), _>(
                    StageCommitError::LibraryError,
                ) <==> ({
                    let count = leaf_count_of(applied->Some_0);
                    (sender as nat) >= count || (receiver as nat) >= count || receiver == sender
                }))
                &&& r is Ok ==> {
                    let d = r->Ok_0.0;
                    &&& d.wf()
                    &&& d@.nodes == staged_nodes(nodes, props, commit, sender)
                    &&& member && refs_found(store, commit) && !removes(props, sender)
                    &&& applied is Some
                    &&& d@.group_context == (GroupContextView {
                        extensions: extensions_after(props, self@.group_context.extensions),
                        ..self@.group_context
                    })
                    &&& d@.interim_transcript_hash == self@.interim_transcript_hash
                    &&& d@.confirmation_tag == self@.confirmation_tag
                    &&& match commit.path {
                        None => {
                            &&& !spec_path_required(props)
                            &&& d@.nodes == applied->Some_0
                            &&& r->Ok_0.1@ == zeros(cs.spec_hash_algorithm().spec_size() as nat)
                        },
                        Some(path) => {
                            let installed = spec_install_direct_path(
                                applied->Some_0.update(2 * sender as int, Some(NodeView::Leaf(path.leaf_node@))),
                                sender as nat,
                                path.nodes@.map_values(|n: crate::commit::UpdatePathNode| n.encryption_key@),
                            );
                            let slots = shared_path(installed.len(), sender as nat, receiver as nat);
                            &&& path_secret is Some
                            &&& d@.nodes == installed
                            &&& r->Ok_0.1@ == secret_chain(*provider, cs, path_secret->Some_0@, slots.len())
                            &&& forall|i: int| 0 <= i < slots.len() ==> parent_key_is(
                                installed,
                                #[trigger] slots[i],
                                chain_key(*provider, cs, path_secret->Some_0@, i as nat),
                            )
                        },
                    }
                }
            }),
    {
        let ghost nodes = self@.nodes;
        let ghost props = resolved(store, commit, sender);
        if self.treesync.leaf(sender).is_none() {
            return Err(StageCommitError::SenderNotMember);
        }
        let proposals = resolve_proposals(store, commit, sender)?;
        assert(proposals@ =~= props);
        if !check_no_self_removal(&proposals, sender) {
            return Err(StageCommitError::AttemptedSelfRemoval);
        }
        if path_required(&proposals) && commit.path.is_none() {
            return Err(StageCommitError::RequiredPathNotFound);
        }
        let mut diff = self.empty_diff();
        if !apply_proposals(&mut diff.treesync, &proposals) {
            return Err(StageCommitError::InvalidProposal);
        }
        let ghost applied = diff.treesync.view_nodes();
        let ciphersuite = self.group_context.ciphersuite;
        let commit_secret = match &commit.path {
            None => zero_bytes(ciphersuite.hash_algorithm().size()),
            Some(path) => {
                let depth = diff.treesync.depth();
                if path.nodes.len() != depth {
                    return Err(StageCommitError::UpdatePathError(UpdatePathError::PathLengthMismatch));
                }
                let ps = match path_secret {
                    Some(ps) => ps,
                    None => return Err(StageCommitError::UpdatePathError(UpdatePathError::UnableToDecrypt)),
                };
                if sender >= diff.treesync.leaf_count() {
                    return Err(StageCommitError::LibraryError);
                }
                diff.treesync.update_leaf(sender, path.leaf_node.duplicate());
                let mut keys: Vec<Vec<u8>> = Vec::new();
                let mut i: usize = 0;
                while i < path.nodes.len()
                    invariant
                        i <= path.nodes@.len(),
                        keys@.len() == i,
                        forall|k: int| 0 <= k < i ==> (#[trigger] keys@[k])@ == path.nodes@[k].encryption_key@,
                    decreases path.nodes@.len() - i,
                {
                    keys.push(copy_bytes(&path.nodes[i].encryption_key));
                    i = i + 1;
                }
                assert(keys@.map_values(|k: Vec<u8>| k@) =~= path.nodes@.map_values(
                    |n: crate::commit::UpdatePathNode| n.encryption_key@,
                ));
                diff.treesync.install_direct_path(sender, &keys);
                match diff.treesync.derive_path_secrets(provider, ciphersuite, ps, sender, receiver) {
                    Ok((_, secret)) => secret,
                    Err(DerivePathError::PublicKeyMismatch) => return Err(
                        StageCommitError::UpdatePathError(UpdatePathError::PathMismatch),
                    ),
                    Err(DerivePathError::LibraryError) => return Err(StageCommitError::LibraryError),
                    Err(DerivePathError::Crypto(e)) => return Err(StageCommitError::Crypto(e)),
                }
            },
        };
        diff.group_context.extensions = new_extensions(&proposals, &self.group_context.extensions);
        Ok((diff, commit_secret))
    }
}

/// Compares a commit's confirmation tag with the MAC computed for it.
pub fn check_confirmation_tag(expected: &Vec<u8>, tag: &ConfirmationTag) -> (r: Result<(), StageCommitError>)
    ensures
        r is Ok <==> tag.mac_value@ == expected@,
        r is Err ==> r->Err_0 == StageCommitError::ConfirmationTagMismatch,
{
    if crate::proposals::bytes_equal(expected, &tag.mac_value) {
        Ok(())
    } else {
        Err(StageCommitError::ConfirmationTagMismatch)
    }
}

impl PublicGroupDiff {
    /// Seals the diff for the next epoch: computes the new tree hash, the
    /// confirmed transcript hash over the interim one and the commit's
    /// content, checks the commit's confirmation tag against the MAC of
    /// that hash under `confirmation_key`, and computes the new interim
    /// transcript hash; the context moves to the next epoch.
    pub fn finalize<P: CryptoProvider>(
        self,
        provider: &P,
        commit_content: &[u8],
        confirmation_key: &[u8],
        confirmation_tag: ConfirmationTag,
    ) -> (r: Result<StagedPublicGroupDiff, StageCommitError>)
        requires
            self.wf(),
        ensures
            ({
                let alg = self@.group_context.ciphersuite.spec_hash_algorithm();
                let cth = provider.digest(alg, self@.interim_transcript_hash + commit_content@);
                &&& self@.group_context.epoch == u64::MAX ==> r == Err::<StagedPublicGroupDiff, _>(
                    StageCommitError::LibraryError,
                )
                &&& r == Err::<StagedPublicGroupDiff, _>(StageCommitError::ConfirmationTagMismatch)
                    ==> confirmation_tag.mac_value@ != provider.mac_of(alg, confirmation_key@, cth)
                &&& (!(r is Err && r->Err_0 is Crypto) && r != Err::<StagedPublicGroupDiff, _>(
                    StageCommitError::LibraryError,
                )) ==> (r == Err::<StagedPublicGroupDiff, _>(StageCommitError::ConfirmationTagMismatch)
                    <==> confirmation_tag.mac_value@ != provider.mac_of(alg, confirmation_key@, cth))
                &&& r == Err::<StagedPublicGroupDiff, _>(StageCommitError::LibraryError) ==> (
                    self@.group_context.epoch == u64::MAX || !all_nodes_fit(self@.nodes) || !vec_fits(
                        confirmation_tag.mac_value@,
                    ))
                &&& r is Err ==> (r->Err_0 is Crypto || r->Err_0 == StageCommitError::LibraryError
                    || r->Err_0 == StageCommitError::ConfirmationTagMismatch)
                &&& r is Ok ==> {
                    &&& r->Ok_0.wf()
                    &&& confirmation_tag.mac_value@ == provider.mac_of(alg, confirmation_key@, cth)
                    &&& r->Ok_0@ == (PublicGroupView {
                        nodes: self@.nodes,
                        group_context: GroupContextView {
                            epoch: (self@.group_context.epoch + 1) as u64,
                            tree_hash: tree_hash_of(*provider, alg, self@.nodes),
                            confirmed_transcript_hash: cth,
                            ..self@.group_context
                        },
                        interim_transcript_hash: provider.digest(alg, interim_input(cth, confirmation_tag.mac_value@)),
                        confirmation_tag: confirmation_tag.mac_value@,
                    })
                }
            }),
    {
        if self.group_context.epoch == u64::MAX {
            return Err(StageCommitError::LibraryError);
        }
        let alg = self.group_context.ciphersuite.hash_algorithm();
        let tree_hash = match self.treesync.tree_hash(provider, alg) {
            Ok(h) => h,
            Err(TreeSyncError::Crypto(e)) => return Err(StageCommitError::Crypto(e)),
            Err(_) => return Err(StageCommitError::LibraryError),
        };
        let mut input = copy_bytes(&self.interim_transcript_hash);
        let ghost prefix = input@;
        input.extend_from_slice(commit_content);
        assert(input@ =~= prefix + commit_content@);
        let cth = match provider.hash(alg, input.as_slice()) {
            Ok(h) => h,
            Err(e) => return Err(StageCommitError::Crypto(e)),
        };
        let expected = match provider.mac(alg, confirmation_key, cth.as_slice()) {
            Ok(m) => m,
            Err(e) => return Err(StageCommitError::Crypto(e)),
        };
        check_confirmation_tag(&expected, &confirmation_tag)?;
        let mut interim_input_bytes = copy_bytes(&cth);
        let mut tag_bytes = match encode_vector(confirmation_tag.mac_value.as_slice()) {
            Ok(b) => b,
            Err(_) => return Err(StageCommitError::LibraryError),
        };
        interim_input_bytes.append(&mut tag_bytes);
        let interim = match provider.hash(alg, interim_input_bytes.as_slice()) {
            Ok(h) => h,
            Err(e) => return Err(StageCommitError::Crypto(e)),
        };
        let PublicGroupDiff { treesync, group_context, interim_transcript_hash: _, confirmation_tag: _ } = self;
        let GroupContext { protocol_version, ciphersuite, group_id, epoch, tree_hash: _, confirmed_transcript_hash: _, extensions } = group_context;
        let group_context = GroupContext {
            protocol_version,
            ciphersuite,
            group_id,
            epoch: epoch + 1,
            tree_hash,
            confirmed_transcript_hash: cth,
            extensions,
        };
        Ok(StagedPublicGroupDiff { treesync, group_context, interim_transcript_hash: interim, confirmation_tag })
    }
}

impl PublicGroup {
    /// Processes a commit end to end: stages it, seals it, merges it, and
    /// drops the proposals it named from the store. On any error neither
    /// the group nor the store changes. Returns the commit secret.
    #[verifier::spinoff_prover]
    #[verifier::rlimit(80)]
    pub fn process_commit<P: CryptoProvider>(
        &mut self,
        provider: &P,
        store: &mut ProposalStore,
        sender: u32,
        commit: &Commit,
        receiver: u32,
        path_secret: Option<Vec<u8>>,
        commit_content: &[u8],
        confirmation_key: &[u8],
        confirmation_tag: ConfirmationTag,
    ) -> (r: Result<Vec<u8>, StageCommitError>)
        requires
            old(self).wf(),
            old(store).wf(),
        ensures
            final(self).wf(),
            final(store).wf(),
            r is Err ==> final(self)@ == old(self)@ && final(store).refs() == old(store).refs(),
            match first_stage_error(old(self)@.nodes, &*old(store), commit, sender, path_secret is Some) {
                Some(e) => r == Err::<Vec<u8>, _>(e),
                None => !(r is Err && is_check_error(r->Err_0)),
            },
            ({
                let g = old(self)@;
                let props = resolved(&*old(store), commit, sender);
                let applied = apply_all(g.nodes, props);
                let nodes = staged_nodes(g.nodes, props, commit, sender);
                let alg = g.group_context.ciphersuite.spec_hash_algorithm();
                let cth = provider.digest(alg, g.interim_transcript_hash + commit_content@);
                let first = first_stage_error(g.nodes, &*old(store), commit, sender, path_secret is Some);
                &&& (first is None && commit.path is Some && !(r is Err && r->Err_0 is Crypto) && r
                    != Err::<Vec<u8>, _>(StageCommitError::LibraryError)) ==> (r == Err::<Vec<u8>, _>(
                    StageCommitError::UpdatePathError(UpdatePathError::PathMismatch),
                ) <==> some_key_differs(
                    *provider,
                    g.group_context.ciphersuite,
                    nodes,
                    shared_path(nodes.len(), sender as nat, receiver as nat),
                    path_secret->Some_0@,
                ))
                &&& r == Err::<Vec<u8>, _>(StageCommitError::ConfirmationTagMismatch)
                    ==> confirmation_tag.mac_value@ != provider.mac_of(alg, confirmation_key@, cth)
                &&& r == Err::<Vec<u8>, _>(StageCommitError::LibraryError) ==> (first is None && (
                ((commit.path is Some && ((sender as nat) >= leaf_count_of(applied->Some_0) || (
                receiver as nat) >= leaf_count_of(applied->Some_0) || receiver == sender)))
                    || g.group_context.epoch == u64::MAX || !all_nodes_fit(nodes) || !vec_fits(
                    confirmation_tag.mac_value@,
                )))
            }),
            r is Ok ==> ({
                let g = old(self)@;
                let props = resolved(&*old(store), commit, sender);
                let alg = g.group_context.ciphersuite.spec_hash_algorithm();
                let nodes = staged_nodes(g.nodes, props, commit, sender);
                let cth = provider.digest(alg, g.interim_transcript_hash + commit_content@);
                &&& confirmation_tag.mac_value@ == provider.mac_of(alg, confirmation_key@, cth)
                &&& final(self)@ == (PublicGroupView {
                    nodes,
                    group_context: GroupContextView {
                        epoch: (g.group_context.epoch + 1) as u64,
                        tree_hash: tree_hash_of(*provider, alg, nodes),
                        confirmed_transcript_hash: cth,
                        extensions: extensions_after(props, g.group_context.extensions),
                        ..g.group_context
                    },
                    interim_transcript_hash: provider.digest(alg, interim_input(cth, confirmation_tag.mac_value@)),
                    confirmation_tag: confirmation_tag.mac_value@,
                })
            }),
            r is Ok ==> final(store).refs() == without(old(store).refs(), commit_refs(commit)),
            r is Ok ==> refs_found(&*old(store), commit) && !removes(resolved(&*old(store), commit, sender), sender),
    {
        let (diff, commit_secret) = self.stage_commit(
            provider,
            &*store,
            sender,
            commit,
            receiver,
            path_secret,
        )?;
        let staged = diff.finalize(provider, commit_content, confirmation_key, confirmation_tag)?;
        let refs = committed_references(commit);
        self.merge_diff(staged);
        store.remove_committed(&refs);
        Ok(commit_secret)
    }
}


impl PublicGroup {
    /// Checks that a message is addressed to this group in its current
    /// epoch.
    pub fn check_group_and_epoch(&self, group_id: &GroupId, epoch: u64) -> (r: Result<(), StageCommitError>)
        ensures
            (group_id.value@ != self@.group_context.group_id) <==> r == Err::<(), _>(StageCommitError::WrongGroupId),
            (group_id.value@ == self@.group_context.group_id && epoch != self@.group_context.epoch)
                <==> r == Err::<(), _>(StageCommitError::WrongEpoch),
            r is Ok <==> (group_id.value@ == self@.group_context.group_id && epoch == self@.group_context.epoch),
    {
        if !crate::proposals::bytes_equal(&group_id.value, &self.group_context.group_id.value) {
            return Err(StageCommitError::WrongGroupId);
        }
        if epoch != self.group_context.epoch {
            return Err(StageCommitError::WrongEpoch);
        }
        Ok(())
    }

    /// Checks the signature of the member at `sender` over `content`
    /// against the signature key in its leaf.
    pub fn verify_sender_signature<P: CryptoProvider>(
        &self,
        provider: &P,
        sender: u32,
        content: &[u8],
        signature: &[u8],
    ) -> (r: Result<(), StageCommitError>)
        requires
            self.wf(),
        ensures
            leaf_at(self@.nodes, sender as int) is None <==> r == Err::<(), _>(StageCommitError::SenderNotMember),
            r is Ok ==> leaf_at(self@.nodes, sender as int) is Some,
            r is Err ==> r == Err::<(), _>(StageCommitError::SenderNotMember) || r == Err::<(), _>(
                StageCommitError::InvalidSignature,
            ),
            leaf_at(self@.nodes, sender as int) is Some ==> (r is Ok <==> provider.signature_ok(
                self@.group_context.ciphersuite.spec_signature_algorithm(),
                leaf_at(self@.nodes, sender as int)->Some_0.signature_key,
                content@,
                signature@,
            )),
    {
        let key = match self.treesync.leaf(sender) {
            Some(l) => &l.signature_key,
            None => return Err(StageCommitError::SenderNotMember),
        };
        match provider.verify_signature(
            self.group_context.ciphersuite.signature_algorithm(),
            key.as_slice(),
            content,
            signature,
        ) {
            Ok(()) => Ok(()),
            Err(_) => Err(StageCommitError::InvalidSignature),
        }
    }

    /// Checks a membership tag: the MAC of `content` under the epoch's
    /// membership key.
    pub fn verify_membership_tag<P: CryptoProvider>(
        &self,
        provider: &P,
        membership_key: &[u8],
        content: &[u8],
        tag: &[u8],
    ) -> (r: Result<(), StageCommitError>)
        ensures
            ({
                let expected = provider.mac_of(
                    self@.group_context.ciphersuite.spec_hash_algorithm(),
                    membership_key@,
                    content@,
                );
                &&& r is Ok ==> tag@ == expected
                &&& r == Err::<(), _>(StageCommitError::MembershipTagMismatch) ==> tag@ != expected
                &&& r is Err ==> (r->Err_0 is Crypto || r->Err_0 == StageCommitError::MembershipTagMismatch)
                &&& !(r is Err && r->Err_0 is Crypto) ==> (r is Ok <==> tag@ == expected)
            }),
    {
        let alg = self.group_context.ciphersuite.hash_algorithm();
        let expected = match provider.mac(alg, membership_key, content) {
            Ok(m) => m,
            Err(e) => return Err(StageCommitError::Crypto(e)),
        };
        let tag_vec = copy_slice(tag);
        if crate::proposals::bytes_equal(&expected, &tag_vec) {
            Ok(())
        } else {
            Err(StageCommitError::MembershipTagMismatch)
        }
    }
}

/// Copies a slice of bytes into a vector.
fn copy_slice(b: &[u8]) -> (r: Vec<u8>)
    ensures
        r@ == b@,
{
    let mut v: Vec<u8> = Vec::new();
    v.extend_from_slice(b);
    assert(v@ =~= b@);
    v
}

} // verus!
