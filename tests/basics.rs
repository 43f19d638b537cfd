use mls_public_group::codec::{decode_vector, encode_be, encode_u16s, encode_vector, CodecError};
use mls_public_group::group_context::{
    Extension, Extensions, GroupContext, GroupId, ProtocolVersion, RequiredCapabilitiesExtension,
    UnknownExtension,
};
use mls_public_group::proposals::{
    path_required, KeyPackage, Proposal, ProposalStore, ProposalType, QueuedProposal,
    RemoveProposal,
};
use mls_public_group::crypto::CryptoProvider;
use mls_public_group::tree::{encode_leaf_tbs, LeafNode, Node, ParentNode, TreeSync, TreeSyncError};
use mls_public_group::types::{AeadType, Ciphersuite, CryptoError, HashType, SignatureScheme};

/// A deterministic stand-in for real primitives, good enough to exercise
/// the group logic.
struct TestCrypto;

fn digest(data: &[u8]) -> Vec<u8> {
    let mut out = Vec::new();
    for seed in 0u64..4 {
        let mut h: u64 = 0xcbf2_9ce4_8422_2325 ^ seed;
        for b in data {
            h ^= *b as u64;
            h = h.wrapping_mul(0x0100_0000_01b3);
        }
        out.extend_from_slice(&h.to_be_bytes());
    }
    out
}

impl CryptoProvider for TestCrypto {
    fn digest(&self, _alg: HashType, _data: vstd::seq::Seq<u8>) -> vstd::seq::Seq<u8> {
        vstd::seq::Seq::empty()
    }

    fn mac_of(
        &self,
        _alg: HashType,
        _key: vstd::seq::Seq<u8>,
        _data: vstd::seq::Seq<u8>,
    ) -> vstd::seq::Seq<u8> {
        vstd::seq::Seq::empty()
    }

    fn expand_label_of(
        &self,
        _alg: HashType,
        _secret: vstd::seq::Seq<u8>,
        _label: vstd::seq::Seq<u8>,
        _length: usize,
    ) -> vstd::seq::Seq<u8> {
        vstd::seq::Seq::empty()
    }

    fn hpke_private_key_of(
        &self,
        _ciphersuite: Ciphersuite,
        _ikm: vstd::seq::Seq<u8>,
    ) -> vstd::seq::Seq<u8> {
        vstd::seq::Seq::empty()
    }

    fn signature_ok(
        &self,
        _scheme: SignatureScheme,
        _public_key: vstd::seq::Seq<u8>,
        _message: vstd::seq::Seq<u8>,
        _signature: vstd::seq::Seq<u8>,
    ) -> bool {
        false
    }

    fn hpke_public_key_of(
        &self,
        _ciphersuite: Ciphersuite,
        _ikm: vstd::seq::Seq<u8>,
    ) -> vstd::seq::Seq<u8> {
        vstd::seq::Seq::empty()
    }

    fn hash(&self, _alg: HashType, data: &[u8]) -> Result<Vec<u8>, CryptoError> {
        Ok(digest(data))
    }

    fn mac(&self, _alg: HashType, key: &[u8], data: &[u8]) -> Result<Vec<u8>, CryptoError> {
        Ok(digest(&[key, data].concat()))
    }

    fn kdf_expand_label(
        &self,
        _alg: HashType,
        secret: &[u8],
        label: &[u8],
        length: usize,
    ) -> Result<Vec<u8>, CryptoError> {
        let mut d = digest(&[secret, label].concat());
        d.resize(length, 0);
        Ok(d)
    }

    fn derive_hpke_keypair(
        &self,
        _ciphersuite: Ciphersuite,
        ikm: &[u8],
    ) -> Result<(Vec<u8>, Vec<u8>), CryptoError> {
        Ok((ikm.to_vec(), digest(ikm)))
    }

    fn verify_signature(
        &self,
        _scheme: SignatureScheme,
        public_key: &[u8],
        message: &[u8],
        signature: &[u8],
    ) -> Result<(), CryptoError> {
        if digest(&[public_key, message].concat()) == signature {
            Ok(())
        } else {
            Err(CryptoError::InvalidSignature)
        }
    }
}

const CS: Ciphersuite = Ciphersuite::MLS_128_DHKEMX25519_AES128GCM_SHA256_Ed25519;

fn signed(mut l: LeafNode) -> LeafNode {
    let tbs = encode_leaf_tbs(&l).unwrap();
    l.signature = digest(&[&l.signature_key[..], &tbs[..]].concat());
    l
}

fn leaf(tag: u8) -> LeafNode {
    signed(LeafNode {
        encryption_key: vec![tag, 1],
        signature_key: vec![tag, 2],
        credential: vec![tag, 3],
        parent_hash: vec![],
        signature: vec![],
    })
}

fn parent(tag: u8) -> ParentNode {
    ParentNode { encryption_key: vec![tag, 9], parent_hash: vec![], unmerged_leaves: vec![] }
}

#[test]
fn aead_sizes() {
    assert_eq!(AeadType::Aes128Gcm.tag_size(), 16);
    assert_eq!(AeadType::Aes256Gcm.tag_size(), 16);
    assert_eq!(AeadType::ChaCha20Poly1305.tag_size(), 16);
    assert_eq!(AeadType::Aes128Gcm.key_size(), 16);
    assert_eq!(AeadType::Aes256Gcm.key_size(), 32);
    assert_eq!(AeadType::ChaCha20Poly1305.key_size(), 32);
    assert_eq!(AeadType::ChaCha20Poly1305.wire_id(), 0x0003);
}

#[test]
fn hash_sizes() {
    assert_eq!(HashType::Sha2_256.size(), 32);
    assert_eq!(HashType::Sha2_512.size(), 64);
    assert_eq!(HashType::Sha2_256.wire_id(), 0x04);
    assert_eq!(HashType::Sha2_512.wire_id(), 0x06);
}

#[test]
fn signature_scheme_from_wire() {
    assert_eq!(SignatureScheme::try_from(0x0403), Ok(SignatureScheme::ECDSA_SECP256R1_SHA256));
    assert_eq!(SignatureScheme::try_from(0x0603), Ok(SignatureScheme::ECDSA_SECP521R1_SHA512));
    assert_eq!(SignatureScheme::try_from(0x0807), Ok(SignatureScheme::ED25519));
    assert_eq!(SignatureScheme::try_from(0x0808), Ok(SignatureScheme::ED448));
    assert_eq!(
        SignatureScheme::try_from(0x0001),
        Err("Unsupported SignatureScheme: 1".to_string())
    );
    assert_eq!(SignatureScheme::ED448.wire_id(), 0x0808);
}

#[test]
fn ciphersuite_algorithms() {
    let cs = Ciphersuite::MLS_128_DHKEMP256_AES128GCM_SHA256_P256;
    assert_eq!(cs.hash_algorithm(), HashType::Sha2_256);
    assert_eq!(cs.signature_algorithm(), SignatureScheme::ECDSA_SECP256R1_SHA256);
    assert_eq!(cs.aead_algorithm(), AeadType::Aes128Gcm);
    let cs = Ciphersuite::MLS_256_DHKEMX448_CHACHA20POLY1305_SHA512_Ed448;
    assert_eq!(cs.hash_algorithm(), HashType::Sha2_512);
    assert_eq!(cs.signature_algorithm(), SignatureScheme::ED448);
    assert_eq!(cs.aead_algorithm(), AeadType::ChaCha20Poly1305);
    assert_eq!(cs.wire_id(), 6);
}

#[test]
fn vector_headers() {
    assert_eq!(encode_vector(&[7, 8, 9]), Ok(vec![3, 7, 8, 9]));
    assert_eq!(encode_vector(&[]), Ok(vec![0]));
    let long = vec![5u8; 64];
    let enc = encode_vector(&long).unwrap();
    assert_eq!(&enc[..2], &[0x40, 0x40]);
    assert_eq!(enc.len(), 66);
    let longer = vec![1u8; 0x4000];
    let enc = encode_vector(&longer).unwrap();
    assert_eq!(&enc[..4], &[0x80, 0x00, 0x40, 0x00]);
    assert_ne!(encode_vector(&longer), Err(CodecError::VectorTooLong));
}

#[test]
fn big_endian_integers() {
    assert_eq!(encode_be(0x0102, 2), vec![1, 2]);
    assert_eq!(encode_be(0x0102_0304_0506_0708, 8), vec![1, 2, 3, 4, 5, 6, 7, 8]);
    assert_eq!(encode_u16s(&[0x0a0b, 3]), vec![0x0a, 0x0b, 0, 3]);
}

#[test]
fn group_context_encoding() {
    let ctx = GroupContext::new(
        Ciphersuite::MLS_128_DHKEMX25519_AES128GCM_SHA256_Ed25519,
        GroupId { value: vec![0xaa] },
        2,
        vec![0xbb],
        vec![],
        Extensions::empty(),
    );
    assert_eq!(ctx.protocol_version, ProtocolVersion::Mls10);
    assert_eq!(
        ctx.encode(),
        Ok(vec![0, 1, 0, 1, 1, 0xaa, 0, 0, 0, 0, 0, 0, 0, 2, 1, 0xbb, 0, 0])
    );
}

#[test]
fn required_capabilities_lookup() {
    let exts = Extensions {
        list: vec![
            Extension::Unknown(UnknownExtension { extension_type: 9, data: vec![1] }),
            Extension::RequiredCapabilities(RequiredCapabilitiesExtension {
                extension_types: vec![5],
                proposal_types: vec![],
                credential_types: vec![1],
            }),
        ],
    };
    let rc = exts.required_capabilities().unwrap();
    assert_eq!(rc.extension_types, vec![5]);
    assert_eq!(rc.credential_types, vec![1]);
    assert!(Extensions::empty().required_capabilities().is_none());
    assert_eq!(exts.encode().unwrap()[0], 14);
}

#[test]
fn tree_from_nodes_checks_shape() {
    let ok = TreeSync::from_nodes(&TestCrypto, CS, vec![
        Some(Node::LeafNode(leaf(1))),
        None,
        Some(Node::LeafNode(leaf(2))),
    ]);
    assert!(ok.is_ok());
    let two = TreeSync::from_nodes(&TestCrypto, CS, vec![Some(Node::LeafNode(leaf(1))), None]);
    assert_eq!(two.err(), Some(TreeSyncError::MalformedTree));
    let five = TreeSync::from_nodes(&TestCrypto, CS, vec![None, None, None, None, None]);
    assert_eq!(five.err(), Some(TreeSyncError::MalformedTree));
    let leaf_at_odd = TreeSync::from_nodes(&TestCrypto, CS, vec![None, Some(Node::LeafNode(leaf(1))), None]);
    assert_eq!(leaf_at_odd.err(), Some(TreeSyncError::MalformedTree));
    let parent_at_even = TreeSync::from_nodes(&TestCrypto, CS, vec![Some(Node::ParentNode(parent(1))), None, None]);
    assert_eq!(parent_at_even.err(), Some(TreeSyncError::MalformedTree));
    let mut bad_unmerged = parent(1);
    bad_unmerged.unmerged_leaves = vec![2];
    let t = TreeSync::from_nodes(&TestCrypto, CS, vec![None, Some(Node::ParentNode(bad_unmerged)), None]);
    assert_eq!(t.err(), Some(TreeSyncError::MalformedTree));
    assert!(TreeSync::from_nodes(&TestCrypto, CS, vec![]).is_err());
}

#[test]
fn tree_leaves_and_free_index() {
    let t = TreeSync::from_nodes(&TestCrypto, CS, vec![
        Some(Node::LeafNode(leaf(1))),
        None,
        None,
        None,
        Some(Node::LeafNode(leaf(3))),
        None,
        None,
    ])
    .unwrap();
    assert_eq!(t.leaf_count(), 4);
    assert_eq!(t.leaf(0).unwrap().credential, vec![1, 3]);
    assert!(t.leaf(1).is_none());
    assert!(t.leaf(9).is_none());
    assert_eq!(t.free_leaf_index(), 1);
    assert_eq!(t.depth(), 2);
    let members = t.full_leaf_members();
    assert_eq!(members.len(), 2);
    assert_eq!(members[0].index, 0);
    assert_eq!(members[1].index, 2);
    assert_eq!(members[1].signature_key, vec![3, 2]);
}

#[test]
fn full_tree_grows_on_add() {
    let mut t = TreeSync::from_nodes(&TestCrypto, CS, vec![
        Some(Node::LeafNode(leaf(1))),
        None,
        Some(Node::LeafNode(leaf(2))),
    ])
    .unwrap();
    assert_eq!(t.free_leaf_index(), 2);
    assert_eq!(t.add_leaf(leaf(3)), Ok(2));
    assert_eq!(t.leaf_count(), 4);
    assert_eq!(t.leaf(2).unwrap().credential, vec![3, 3]);
    assert_eq!(t.free_leaf_index(), 3);
}

#[test]
fn remove_blanks_the_direct_path() {
    let mut t = TreeSync::from_nodes(&TestCrypto, CS, vec![
        Some(Node::LeafNode(leaf(1))),
        None,
        Some(Node::LeafNode(leaf(2))),
        None,
        Some(Node::LeafNode(leaf(3))),
        None,
        None,
    ])
    .unwrap();
    let keys = vec![vec![0x51], vec![0x52]];
    t.install_direct_path(2, &keys);
    let with_path = t.tree_hash(&TestCrypto, HashType::Sha2_256).unwrap();
    t.remove_leaf(2);
    assert!(t.leaf(2).is_none());
    assert_eq!(t.free_leaf_index(), 2);
    assert_eq!(t.leaf(0).unwrap().credential, vec![1, 3]);
    let removed = TreeSync::from_nodes(&TestCrypto, CS, vec![
        Some(Node::LeafNode(leaf(1))),
        None,
        Some(Node::LeafNode(leaf(2))),
        None,
        None,
        None,
        None,
    ])
    .unwrap();
    let h = t.tree_hash(&TestCrypto, HashType::Sha2_256).unwrap();
    assert_ne!(h, with_path);
    assert_eq!(h, removed.tree_hash(&TestCrypto, HashType::Sha2_256).unwrap());
}

#[test]
fn tree_checks_leaves_and_parent_hashes() {
    let mut forged = leaf(2);
    forged.credential = vec![9];
    let r = TreeSync::from_nodes(&TestCrypto, CS, vec![Some(Node::LeafNode(leaf(1))), None, Some(Node::LeafNode(forged))]);
    assert_eq!(r.err(), Some(TreeSyncError::InvalidLeafSignature));
    let empty = signed(LeafNode {
        encryption_key: vec![1],
        signature_key: vec![2],
        credential: vec![],
        parent_hash: vec![],
        signature: vec![],
    });
    let r = TreeSync::from_nodes(&TestCrypto, CS, vec![Some(Node::LeafNode(empty)), None, None]);
    assert_eq!(r.err(), Some(TreeSyncError::MalformedCredential));
    let root = parent(7);
    let r = TreeSync::from_nodes(&TestCrypto, CS, vec![
        Some(Node::LeafNode(leaf(1))),
        Some(Node::ParentNode(parent(7))),
        Some(Node::LeafNode(leaf(2))),
    ]);
    assert_eq!(r.err(), Some(TreeSyncError::ParentHashMismatch));
    let mut input = encode_vector(&root.encryption_key).unwrap();
    input.extend_from_slice(&encode_vector(&root.parent_hash).unwrap());
    let mut linked = leaf(1);
    linked.parent_hash = digest(&input);
    let linked = signed(linked);
    let r = TreeSync::from_nodes(&TestCrypto, CS, vec![
        Some(Node::LeafNode(linked)),
        Some(Node::ParentNode(root)),
        Some(Node::LeafNode(leaf(2))),
    ]);
    assert!(r.is_ok());
}

#[test]
fn classifier_requires_path() {
    let update = Proposal::Update(leaf(1));
    let remove = Proposal::Remove(RemoveProposal { removed: 1 });
    let gce = Proposal::GroupContextExtensions(Extensions::empty());
    let ext_init = Proposal::ExternalInit(vec![1]);
    let add = Proposal::Add(KeyPackage { leaf_node: leaf(2), init_key: vec![1] });
    let psk = Proposal::PreSharedKey(vec![1]);
    let reinit = Proposal::ReInit(vec![1]);
    for p in [&update, &remove, &gce, &ext_init] {
        assert!(path_required(&vec![(0, p)]));
    }
    for p in [&add, &psk, &reinit] {
        assert!(!path_required(&vec![(0, p)]));
    }
    assert!(!path_required(&vec![]));
    assert!(path_required(&vec![(0, &add), (0, &remove)]));
    assert!(remove.is_type(ProposalType::Remove));
    assert_eq!(gce.proposal_type(), ProposalType::GroupContextExtensions);
}

#[test]
fn store_deduplicates_and_keeps_uncommitted() {
    let mut store = ProposalStore::new();
    let q = |r: u8| QueuedProposal {
        reference: vec![r],
        sender: 0,
        proposal: Proposal::PreSharedKey(vec![r]),
    };
    assert!(store.add(q(1)));
    assert!(store.add(q(2)));
    assert!(!store.add(q(1)));
    assert!(store.add(q(3)));
    assert_eq!(store.len(), 3);
    store.remove_committed(&vec![vec![2], vec![9]]);
    assert_eq!(store.len(), 2);
    assert!(store.contains(&vec![1]));
    assert!(!store.contains(&vec![2]));
    assert!(store.contains(&vec![3]));
    assert_eq!(store.get(&vec![3]).unwrap().reference, vec![3]);
}

#[test]
fn crypto_error_names() {
    assert_eq!(CryptoError::InvalidSignature.to_string(), "InvalidSignature");
    assert_eq!(CryptoError::HpkeDecryptionError.to_string(), "HpkeDecryptionError");
}

#[test]
fn vectors_read_back() {
    for len in [0usize, 5, 63, 64, 300, 0x3fff, 0x4000] {
        let content: Vec<u8> = (0..len).map(|i| (i % 251) as u8).collect();
        let mut bytes = encode_vector(&content).unwrap();
        let header = bytes.len() - len;
        bytes.extend_from_slice(&[0xee, 0xef]);
        let (back, used) = decode_vector(&bytes).unwrap();
        assert_eq!(back, content);
        assert_eq!(used, header + len);
    }
    // a two-byte header for a length that fits in one is rejected
    assert!(decode_vector(&[0x40, 0x01, 0xaa]).is_none());
    assert!(decode_vector(&[0xc0, 0, 0, 0, 0, 0, 0, 0]).is_none());
    assert!(decode_vector(&[3, 1, 2]).is_none());
    assert!(decode_vector(&[]).is_none());
}

#[test]
fn unknown_scheme_messages() {
    assert_eq!(
        SignatureScheme::try_from(65535),
        Err("Unsupported SignatureScheme: 65535".to_string())
    );
    assert_eq!(
        SignatureScheme::try_from(0),
        Err("Unsupported SignatureScheme: 0".to_string())
    );
    assert_eq!(CryptoError::InvalidLength.to_string(), "InvalidLength");
}
