use mls_public_group::commit::{
    Commit, ProposalOrRef, StageCommitError, UpdatePath, UpdatePathError, UpdatePathNode,
};
use mls_public_group::crypto::CryptoProvider;
use mls_public_group::group_context::{Extensions, GroupContext, GroupId, ProtocolVersion};
use mls_public_group::proposals::{Proposal, ProposalStore, QueuedProposal, RemoveProposal};
use mls_public_group::public_group::{
    ConfirmationTag, CreationFromExternalError, GroupInfo, PublicGroup, VerifiableGroupInfo,
};
use mls_public_group::codec::encode_vector;
use mls_public_group::tree::{
    encode_leaf_tbs, DerivePathError, LeafNode, Node, ParentNode, TreeSync, TreeSyncError,
};
use mls_public_group::types::{Ciphersuite, CryptoError, HashType, SignatureScheme};

/// A deterministic stand-in for real primitives, good enough to exercise
/// the group logic.
struct TestCrypto;

fn digest(data: &[u8]) -> Vec<u8> {
    let mut out = Vec::new();
    for seed in 0u64..4 {
        let mut h: u64 = 0xcbf2_9ce4_8422_2325 ^ seed;
        for b in data {
            h ^= *b as u64;
            h = h.wrapping_mul(0x0100_0000_01b3);
        }
        out.extend_from_slice(&h.to_be_bytes());
    }
    out
}

impl CryptoProvider for TestCrypto {
    fn digest(&self, _alg: HashType, _data: vstd::seq::Seq<u8>) -> vstd::seq::Seq<u8> {
        vstd::seq::Seq::empty()
    }

    fn mac_of(
        &self,
        _alg: HashType,
        _key: vstd::seq::Seq<u8>,
        _data: vstd::seq::Seq<u8>,
    ) -> vstd::seq::Seq<u8> {
        vstd::seq::Seq::empty()
    }

    fn expand_label_of(
        &self,
        _alg: HashType,
        _secret: vstd::seq::Seq<u8>,
        _label: vstd::seq::Seq<u8>,
        _length: usize,
    ) -> vstd::seq::Seq<u8> {
        vstd::seq::Seq::empty()
    }

    fn hpke_private_key_of(
        &self,
        _ciphersuite: Ciphersuite,
        _ikm: vstd::seq::Seq<u8>,
    ) -> vstd::seq::Seq<u8> {
        vstd::seq::Seq::empty()
    }

    fn signature_ok(
        &self,
        _scheme: SignatureScheme,
        _public_key: vstd::seq::Seq<u8>,
        _message: vstd::seq::Seq<u8>,
        _signature: vstd::seq::Seq<u8>,
    ) -> bool {
        false
    }

    fn hpke_public_key_of(
        &self,
        _ciphersuite: Ciphersuite,
        _ikm: vstd::seq::Seq<u8>,
    ) -> vstd::seq::Seq<u8> {
        vstd::seq::Seq::empty()
    }

    fn hash(&self, _alg: HashType, data: &[u8]) -> Result<Vec<u8>, CryptoError> {
        Ok(digest(data))
    }

    fn mac(&self, _alg: HashType, key: &[u8], data: &[u8]) -> Result<Vec<u8>, CryptoError> {
        Ok(digest(&[key, data].concat()))
    }

    fn kdf_expand_label(
        &self,
        _alg: HashType,
        secret: &[u8],
        label: &[u8],
        length: usize,
    ) -> Result<Vec<u8>, CryptoError> {
        let mut d = digest(&[secret, label].concat());
        d.resize(length, 0);
        Ok(d)
    }

    fn derive_hpke_keypair(
        &self,
        _ciphersuite: Ciphersuite,
        ikm: &[u8],
    ) -> Result<(Vec<u8>, Vec<u8>), CryptoError> {
        Ok((ikm.to_vec(), digest(ikm)))
    }

    fn verify_signature(
        &self,
        _scheme: SignatureScheme,
        public_key: &[u8],
        message: &[u8],
        signature: &[u8],
    ) -> Result<(), CryptoError> {
        if digest(&[public_key, message].concat()) == signature {
            Ok(())
        } else {
            Err(CryptoError::InvalidSignature)
        }
    }
}

const CS: Ciphersuite = Ciphersuite::MLS_128_DHKEMX25519_AES128GCM_SHA256_Ed25519;

fn signed(mut l: LeafNode) -> LeafNode {
    let tbs = encode_leaf_tbs(&l).unwrap();
    l.signature = digest(&[&l.signature_key[..], &tbs[..]].concat());
    l
}

fn leaf(tag: u8) -> LeafNode {
    signed(LeafNode {
        encryption_key: vec![tag, 1],
        signature_key: vec![tag, 2],
        credential: vec![tag, 3],
        parent_hash: vec![],
        signature: vec![],
    })
}

fn parent_hash_of(key: &[u8], parent_hash: &[u8]) -> Vec<u8> {
    let mut input = encode_vector(key).unwrap();
    input.extend_from_slice(&encode_vector(parent_hash).unwrap());
    digest(&input)
}

fn node_public_key(secret: &[u8]) -> Vec<u8> {
    let c = TestCrypto;
    let node_secret = c.kdf_expand_label(HashType::Sha2_256, secret, b"node", 32).unwrap();
    c.derive_hpke_keypair(CS, &node_secret).unwrap().1
}

/// Alice at leaf 0, Bob at leaf 1, Charlie at leaf 2, leaf 3 blank.
fn three_member_nodes() -> Vec<Option<Node>> {
    vec![
        Some(Node::LeafNode(leaf(0xa))),
        None,
        Some(Node::LeafNode(leaf(0xb))),
        None,
        Some(Node::LeafNode(leaf(0xc))),
        None,
        None,
    ]
}

fn tree_hash_of(nodes: Vec<Option<Node>>) -> Vec<u8> {
    TreeSync::from_nodes(&TestCrypto, CS, nodes).unwrap().tree_hash(&TestCrypto, HashType::Sha2_256).unwrap()
}

fn signed_group_info(epoch: u64, tree_hash: Vec<u8>, signer: u32, signer_key: &[u8]) -> VerifiableGroupInfo {
    let payload = GroupInfo {
        group_context: GroupContext::new(
            CS,
            GroupId { value: vec![7, 7] },
            epoch,
            tree_hash,
            vec![0x11, 0x22],
            Extensions::empty(),
        ),
        extensions: Extensions::empty(),
        confirmation_tag: ConfirmationTag { mac_value: vec![0x33; 4] },
        signer,
    };
    let tbs = payload.encode_tbs().unwrap();
    let signature = digest(&[signer_key, &tbs[..]].concat());
    VerifiableGroupInfo { payload, signature }
}

fn group() -> PublicGroup {
    let th = tree_hash_of(three_member_nodes());
    let gi = signed_group_info(0, th, 0, &leaf(0xa).signature_key);
    PublicGroup::from_external(&TestCrypto, three_member_nodes(), gi).unwrap().0
}

#[test]
fn tree_hash_is_deterministic() {
    let a = tree_hash_of(three_member_nodes());
    let b = tree_hash_of(three_member_nodes());
    assert_eq!(a, b);
    assert_eq!(a.len(), 32);
    let mut other = three_member_nodes();
    other[6] = Some(Node::LeafNode(leaf(0xd)));
    assert_ne!(a, tree_hash_of(other));
}

#[test]
fn from_external_at_epoch_zero() {
    let th = tree_hash_of(three_member_nodes());
    let gi = signed_group_info(0, th.clone(), 1, &leaf(0xb).signature_key);
    let (g, exts) = PublicGroup::from_external(&TestCrypto, three_member_nodes(), gi).unwrap();
    assert!(exts.list.is_empty());
    assert_eq!(g.group_id().value, vec![7, 7]);
    assert_eq!(g.version(), ProtocolVersion::Mls10);
    assert_eq!(g.ciphersuite(), CS);
    assert_eq!(g.group_context().tree_hash, th);
    assert_eq!(g.group_context().epoch, 0);
    assert!(g.interim_transcript_hash().is_empty());
    assert_eq!(g.confirmation_tag().mac_value, vec![0x33; 4]);
    assert!(g.required_capabilities().is_none());
    assert!(g.extensions().list.is_empty());
    assert_eq!(g.members().len(), 3);
}

#[test]
fn from_external_computes_interim_hash() {
    let th = tree_hash_of(three_member_nodes());
    let gi = signed_group_info(5, th, 0, &leaf(0xa).signature_key);
    let (g, _) = PublicGroup::from_external(&TestCrypto, three_member_nodes(), gi).unwrap();
    // confirmed transcript hash, then the tag as a vector of four bytes
    let expected = digest(&[0x11, 0x22, 4, 0x33, 0x33, 0x33, 0x33]);
    assert_eq!(g.interim_transcript_hash(), &expected[..]);
}

#[test]
fn from_external_errors() {
    let th = tree_hash_of(three_member_nodes());
    let gi = signed_group_info(0, th.clone(), 3, &leaf(0xa).signature_key);
    assert_eq!(
        PublicGroup::from_external(&TestCrypto, three_member_nodes(), gi).err(),
        Some(CreationFromExternalError::UnknownSender)
    );
    let gi = signed_group_info(0, th.clone(), 0, &leaf(0xb).signature_key);
    assert_eq!(
        PublicGroup::from_external(&TestCrypto, three_member_nodes(), gi).err(),
        Some(CreationFromExternalError::InvalidGroupInfoSignature)
    );
    let gi = signed_group_info(0, vec![1, 2, 3], 0, &leaf(0xa).signature_key);
    assert_eq!(
        PublicGroup::from_external(&TestCrypto, three_member_nodes(), gi).err(),
        Some(CreationFromExternalError::TreeHashMismatch)
    );
    let mut gi = signed_group_info(0, th.clone(), 0, &leaf(0xa).signature_key);
    gi.payload.group_context.protocol_version = ProtocolVersion::Mls10Draft11;
    let tbs = gi.payload.encode_tbs().unwrap();
    gi.signature = digest(&[&leaf(0xa).signature_key[..], &tbs[..]].concat());
    assert_eq!(
        PublicGroup::from_external(&TestCrypto, three_member_nodes(), gi).err(),
        Some(CreationFromExternalError::UnsupportedMlsVersion)
    );
    let gi = signed_group_info(0, th, 0, &leaf(0xa).signature_key);
    let mut bad = three_member_nodes();
    bad.pop();
    assert_eq!(
        PublicGroup::from_external(&TestCrypto, bad, gi).err(),
        Some(CreationFromExternalError::TreeSyncError(TreeSyncError::MalformedTree))
    );
}

#[test]
fn free_leaf_index_for_external_commits() {
    let g = group();
    assert_eq!(g.free_leaf_index(&vec![]), Ok(3));
    let remove = Proposal::Remove(RemoveProposal { removed: 1 });
    let psk = Proposal::PreSharedKey(vec![1]);
    assert_eq!(g.free_leaf_index(&vec![None, Some(&psk), Some(&remove)]), Ok(1));
    let far = Proposal::Remove(RemoveProposal { removed: 3 });
    assert_eq!(g.free_leaf_index(&vec![Some(&far), Some(&remove)]), Ok(3));
}

#[test]
fn merging_the_empty_diff_changes_nothing() {
    let mut g = group();
    let before_ctx = g.group_context().encode().unwrap();
    let before_hash = g.treesync().tree_hash(&TestCrypto, HashType::Sha2_256).unwrap();
    let staged = g.empty_diff().into_staged_diff();
    g.merge_diff(staged);
    assert_eq!(g.group_context().encode().unwrap(), before_ctx);
    assert_eq!(g.treesync().tree_hash(&TestCrypto, HashType::Sha2_256).unwrap(), before_hash);
    assert!(g.interim_transcript_hash().is_empty());
    assert_eq!(g.confirmation_tag().mac_value, vec![0x33; 4]);
}

#[test]
fn derive_path_secrets_checks_keys() {
    let secret = vec![9u8; 32];
    let root_key = node_public_key(&secret);
    let linked_nodes = || {
        let root_hash = parent_hash_of(&root_key, &[]);
        let left = ParentNode { encryption_key: vec![0x1e], parent_hash: root_hash, unmerged_leaves: vec![] };
        let mut alice = leaf(0xa);
        alice.parent_hash = parent_hash_of(&left.encryption_key, &left.parent_hash);
        vec![
            Some(Node::LeafNode(signed(alice))),
            Some(Node::ParentNode(left)),
            Some(Node::LeafNode(leaf(0xb))),
            Some(Node::ParentNode(ParentNode {
                encryption_key: root_key.clone(),
                parent_hash: vec![],
                unmerged_leaves: vec![],
            })),
            Some(Node::LeafNode(leaf(0xc))),
            None,
            None,
        ]
    };
    let nodes = linked_nodes();
    let th = tree_hash_of(linked_nodes());
    let gi = signed_group_info(0, th, 0, &leaf(0xa).signature_key);
    let g = PublicGroup::from_external(&TestCrypto, nodes, gi).unwrap().0;
    let (keys, commit_secret) = g.derive_path_secrets(&TestCrypto, CS, secret.clone(), 0, 2).unwrap();
    assert_eq!(keys.len(), 1);
    assert_eq!(keys[0].public_key, root_key);
    let expected = TestCrypto.kdf_expand_label(HashType::Sha2_256, &secret, b"path", 32).unwrap();
    assert_eq!(commit_secret, expected);
    assert_eq!(
        g.derive_path_secrets(&TestCrypto, CS, vec![1u8; 32], 0, 2).err(),
        Some(DerivePathError::PublicKeyMismatch)
    );
    assert_eq!(
        g.derive_path_secrets(&TestCrypto, CS, secret.clone(), 7, 2).err(),
        Some(DerivePathError::LibraryError)
    );
}

fn inline(p: Proposal) -> ProposalOrRef {
    ProposalOrRef::Proposal(p)
}

/// A self-update of Alice with a path of two nodes; Bob (leaf 1) decrypts
/// `secret` at their common ancestor, slot 1.
fn self_update_commit(secret: &[u8]) -> Commit {
    let slot1_key = node_public_key(secret);
    let next = TestCrypto.kdf_expand_label(HashType::Sha2_256, secret, b"path", 32).unwrap();
    let root_key = node_public_key(&next);
    Commit {
        proposals: vec![],
        path: Some(UpdatePath {
            leaf_node: leaf(0xa0),
            nodes: vec![
                UpdatePathNode { encryption_key: slot1_key, encrypted_path_secrets: vec![vec![1]] },
                UpdatePathNode { encryption_key: root_key, encrypted_path_secrets: vec![vec![2]] },
            ],
        }),
    }
}

#[test]
fn self_remove_is_rejected() {
    let g = group();
    let store = ProposalStore::new();
    let secret = vec![5u8; 32];
    let mut commit = self_update_commit(&secret);
    commit.proposals.push(inline(Proposal::Remove(RemoveProposal { removed: 0 })));
    assert_eq!(
        g.stage_commit(&TestCrypto, &store, 0, &commit, 1, Some(secret.clone())).err(),
        Some(StageCommitError::AttemptedSelfRemoval)
    );
    let commit = self_update_commit(&secret);
    assert!(g.stage_commit(&TestCrypto, &store, 0, &commit, 1, Some(secret)).is_ok());
}

#[test]
fn path_required_for_update_remove_and_extensions() {
    let g = group();
    let store = ProposalStore::new();
    for p in [
        Proposal::Update(leaf(0xa1)),
        Proposal::Remove(RemoveProposal { removed: 2 }),
        Proposal::GroupContextExtensions(Extensions::empty()),
    ] {
        let commit = Commit { proposals: vec![inline(p)], path: None };
        assert!(!commit.has_path());
        assert_eq!(
            g.stage_commit(&TestCrypto, &store, 0, &commit, 1, None).err(),
            Some(StageCommitError::RequiredPathNotFound)
        );
    }
    let add = Proposal::Add(mls_public_group::proposals::KeyPackage {
        leaf_node: leaf(0xd),
        init_key: vec![1],
    });
    let commit = Commit { proposals: vec![inline(add)], path: None };
    let (diff, secret) = g.stage_commit(&TestCrypto, &store, 0, &commit, 1, None).unwrap();
    assert_eq!(secret, vec![0u8; 32]);
    let staged = diff.into_staged_diff();
    assert_eq!(staged.group_context().epoch, 0);
    let commit = Commit { proposals: vec![inline(Proposal::PreSharedKey(vec![3]))], path: None };
    assert!(g.stage_commit(&TestCrypto, &store, 0, &commit, 1, None).is_ok());
}

#[test]
fn path_length_mismatch_is_rejected() {
    let g = group();
    let store = ProposalStore::new();
    let secret = vec![5u8; 32];
    let mut commit = self_update_commit(&secret);
    commit.path.as_mut().unwrap().nodes.pop();
    assert_eq!(
        g.stage_commit(&TestCrypto, &store, 0, &commit, 1, Some(secret)).err(),
        Some(StageCommitError::UpdatePathError(UpdatePathError::PathLengthMismatch))
    );
}

#[test]
fn undecryptable_path_is_rejected() {
    let g = group();
    let store = ProposalStore::new();
    let commit = self_update_commit(&[5u8; 32]);
    assert_eq!(
        g.stage_commit(&TestCrypto, &store, 0, &commit, 1, None).err(),
        Some(StageCommitError::UpdatePathError(UpdatePathError::UnableToDecrypt))
    );
}

#[test]
fn tampered_path_keys_are_rejected() {
    let g = group();
    let store = ProposalStore::new();
    let commit = self_update_commit(&[5u8; 32]);
    assert_eq!(
        g.stage_commit(&TestCrypto, &store, 0, &commit, 1, Some(vec![6u8; 32])).err(),
        Some(StageCommitError::UpdatePathError(UpdatePathError::PathMismatch))
    );
}

#[test]
fn confirmation_tag_tamper_is_rejected() {
    let mut g = group();
    let mut store = ProposalStore::new();
    let secret = vec![5u8; 32];
    let commit = self_update_commit(&secret);
    let content = vec![0xc0, 0x11];
    let key = vec![0x4b; 32];
    let cth = digest(&content);
    let tag = digest(&[&key[..], &cth[..]].concat());
    let mut bad = tag.clone();
    *bad.last_mut().unwrap() ^= 1;
    let before = g.group_context().encode().unwrap();
    let r = g.process_commit(
        &TestCrypto,
        &mut store,
        0,
        &commit,
        1,
        Some(secret.clone()),
        &content,
        &key,
        ConfirmationTag { mac_value: bad },
    );
    assert_eq!(r.err(), Some(StageCommitError::ConfirmationTagMismatch));
    assert_eq!(g.group_context().encode().unwrap(), before);
    assert_eq!(g.group_context().epoch, 0);
    let r = g.process_commit(
        &TestCrypto,
        &mut store,
        0,
        &commit,
        1,
        Some(secret),
        &content,
        &key,
        ConfirmationTag { mac_value: tag.clone() },
    );
    assert!(r.is_ok());
    assert_eq!(g.group_context().epoch, 1);
    assert_eq!(g.group_context().confirmed_transcript_hash, cth);
    assert_eq!(g.confirmation_tag().mac_value, tag);
    assert_eq!(g.treesync().leaf(0).unwrap().credential, vec![0xa0, 3]);
}

#[test]
fn rejected_commit_leaves_state_and_store() {
    let mut g = group();
    let mut store = ProposalStore::new();
    store.add(QueuedProposal {
        reference: vec![1],
        sender: 1,
        proposal: Proposal::Remove(RemoveProposal { removed: 2 }),
    });
    let commit = Commit { proposals: vec![ProposalOrRef::Reference(vec![1])], path: None };
    let before = g.group_context().encode().unwrap();
    let r = g.process_commit(
        &TestCrypto,
        &mut store,
        0,
        &commit,
        1,
        None,
        &[1],
        &[2],
        ConfirmationTag { mac_value: vec![] },
    );
    assert_eq!(r.err(), Some(StageCommitError::RequiredPathNotFound));
    assert_eq!(g.group_context().encode().unwrap(), before);
    assert_eq!(store.len(), 1);
    let missing = Commit { proposals: vec![ProposalOrRef::Reference(vec![9])], path: None };
    assert_eq!(
        g.stage_commit(&TestCrypto, &store, 0, &missing, 1, None).err(),
        Some(StageCommitError::ProposalNotFound)
    );
    let empty = Commit { proposals: vec![], path: None };
    assert_eq!(
        g.stage_commit(&TestCrypto, &store, 3, &empty, 1, None).err(),
        Some(StageCommitError::SenderNotMember)
    );
    let bad_remove = Commit {
        proposals: vec![inline(Proposal::Remove(RemoveProposal { removed: 3 }))],
        path: None,
    };
    let secretless = g.stage_commit(&TestCrypto, &store, 0, &bad_remove, 1, None).err();
    assert_eq!(secretless, Some(StageCommitError::RequiredPathNotFound));
}

#[test]
fn partial_proposal_commit() {
    let mut g = group();
    let mut store = ProposalStore::new();
    store.add(QueuedProposal {
        reference: vec![0xc],
        sender: 0,
        proposal: Proposal::Remove(RemoveProposal { removed: 2 }),
    });
    store.add(QueuedProposal {
        reference: vec![0xa],
        sender: 0,
        proposal: Proposal::Update(leaf(0xa2)),
    });
    // Alice commits only the removal of Charlie.
    let secret = vec![5u8; 32];
    let mut commit = self_update_commit(&secret);
    commit.proposals.push(ProposalOrRef::Reference(vec![0xc]));
    let content = vec![1, 2, 3];
    let key = vec![7u8; 32];
    let cth = digest(&content);
    let tag = digest(&[&key[..], &cth[..]].concat());
    let r = g.process_commit(
        &TestCrypto,
        &mut store,
        0,
        &commit,
        1,
        Some(secret),
        &content,
        &key,
        ConfirmationTag { mac_value: tag },
    );
    assert!(r.is_ok());
    assert!(g.treesync().leaf(2).is_none());
    assert_eq!(store.len(), 1);
    assert!(store.contains(&vec![0xa]));
    assert!(!store.contains(&vec![0xc]));
    assert_eq!(g.members().len(), 2);
}

#[test]
fn framing_checks() {
    let g = group();
    assert_eq!(g.check_group_and_epoch(&GroupId { value: vec![7, 7] }, 0), Ok(()));
    assert_eq!(
        g.check_group_and_epoch(&GroupId { value: vec![7] }, 0),
        Err(StageCommitError::WrongGroupId)
    );
    assert_eq!(
        g.check_group_and_epoch(&GroupId { value: vec![7, 7] }, 1),
        Err(StageCommitError::WrongEpoch)
    );
    let content = vec![1, 2, 3];
    let sig = digest(&[&leaf(0xb).signature_key[..], &content[..]].concat());
    assert_eq!(g.verify_sender_signature(&TestCrypto, 1, &content, &sig), Ok(()));
    assert_eq!(
        g.verify_sender_signature(&TestCrypto, 0, &content, &sig),
        Err(StageCommitError::InvalidSignature)
    );
    assert_eq!(
        g.verify_sender_signature(&TestCrypto, 3, &content, &sig),
        Err(StageCommitError::SenderNotMember)
    );
    let key = vec![0x99; 8];
    let tag = digest(&[&key[..], &content[..]].concat());
    assert_eq!(g.verify_membership_tag(&TestCrypto, &key, &content, &tag), Ok(()));
    let mut bad = tag.clone();
    bad[0] ^= 0xff;
    assert_eq!(
        g.verify_membership_tag(&TestCrypto, &key, &content, &bad),
        Err(StageCommitError::MembershipTagMismatch)
    );
}

#[test]
fn reinit_commit_is_refused() {
    let g = group();
    let store = ProposalStore::new();
    let commit = Commit { proposals: vec![inline(Proposal::ReInit(vec![1]))], path: None };
    assert_eq!(
        g.stage_commit(&TestCrypto, &store, 0, &commit, 1, None).err(),
        Some(StageCommitError::InvalidProposal)
    );
}

#[test]
fn from_external_rejects_forged_trees() {
    let mut nodes = three_member_nodes();
    let mut forged = leaf(0xb);
    forged.signature_key = vec![0xee];
    nodes[2] = Some(Node::LeafNode(forged));
    let th = tree_hash_of(three_member_nodes());
    let gi = signed_group_info(0, th, 0, &leaf(0xa).signature_key);
    assert_eq!(
        PublicGroup::from_external(&TestCrypto, nodes, gi).err(),
        Some(CreationFromExternalError::TreeSyncError(TreeSyncError::InvalidLeafSignature))
    );
}
