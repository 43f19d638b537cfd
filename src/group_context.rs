//! The group context: the state that every member binds into each epoch's
//! signatures and MACs, with its canonical encoding.

use vstd::prelude::*;
use crate::codec::{
    be_bytes, enc_u16s, enc_vec, encode_be, encode_u16s, encode_vector, vec_fits, CodecError,
};
use crate::tree::copy_bytes;
use crate::types::Ciphersuite;

verus! {

/// The protocol versions.
#[derive(Debug, PartialEq, Eq, Clone, Copy, Structural)]
pub enum ProtocolVersion {
    Mls10,
    Mls10Draft11,
}

impl ProtocolVersion {
    /// Identifier of the version on the wire.
    pub open spec fn spec_wire_id(self) -> u16 {
        match self {
            ProtocolVersion::Mls10 => 1,
            ProtocolVersion::Mls10Draft11 => 200,
        }
    }

    /// The identifier of the version on the wire.
    pub fn wire_id(&self) -> (r: u16)
        ensures
            r == self.spec_wire_id(),
    {
        match self {
            ProtocolVersion::Mls10 => 1,
            ProtocolVersion::Mls10Draft11 => 200,
        }
    }
}

/// The identifier of a group.
#[derive(Debug)]
pub struct GroupId {
    pub value: Vec<u8>,
}

/// The extension that lists what every member must support.
#[derive(Debug)]
pub struct RequiredCapabilitiesExtension {
    pub extension_types: Vec<u16>,
    pub proposal_types: Vec<u16>,
    pub credential_types: Vec<u16>,
}

/// An extension whose content this library carries without reading it.
#[derive(Debug)]
pub struct UnknownExtension {
    pub extension_type: u16,
    pub data: Vec<u8>,
}

/// A group context extension.
#[derive(Debug)]
pub enum Extension {
    RequiredCapabilities(RequiredCapabilitiesExtension),
    Unknown(UnknownExtension),
}

/// The extensions of a group, in order.
#[derive(Debug)]
pub struct Extensions {
    pub list: Vec<Extension>,
}

/// What an extension holds, as values.
pub enum ExtensionView {
    RequiredCapabilities(Seq<u16>, Seq<u16>, Seq<u16>),
    Unknown(u16, Seq<u8>),
}

impl View for Extension {
    type V = ExtensionView;

    open spec fn view(&self) -> ExtensionView {
        match self {
            Extension::RequiredCapabilities(rc) => ExtensionView::RequiredCapabilities(
                rc.extension_types@,
                rc.proposal_types@,
                rc.credential_types@,
            ),
            Extension::Unknown(u) => ExtensionView::Unknown(u.extension_type, u.data@),
        }
    }
}

impl View for Extensions {
    type V = Seq<ExtensionView>;

    open spec fn view(&self) -> Seq<ExtensionView> {
        self.list@.map_values(|e: Extension| e@)
    }
}

/// The wire type of the required-capabilities extension.
pub const REQUIRED_CAPABILITIES_TYPE: u16 = 3;

/// An extension's content.
pub open spec fn ext_data(e: ExtensionView) -> Seq<u8> {
    match e {
        ExtensionView::RequiredCapabilities(x, p, c) => enc_vec(enc_u16s(x)) + enc_vec(enc_u16s(p))
            + enc_vec(enc_u16s(c)),
        ExtensionView::Unknown(_, d) => d,
    }
}

/// An extension's wire type.
pub open spec fn ext_type(e: ExtensionView) -> u16 {
    match e {
        ExtensionView::RequiredCapabilities(..) => REQUIRED_CAPABILITIES_TYPE,
        ExtensionView::Unknown(t, _) => t,
    }
}

/// An extension on the wire: its type, then its content as a vector.
pub open spec fn enc_ext(e: ExtensionView) -> Seq<u8> {
    be_bytes(ext_type(e) as nat, 2) + enc_vec(ext_data(e))
}

/// Whether every vector inside an extension can be encoded.
pub open spec fn ext_fits(e: ExtensionView) -> bool {
    &&& match e {
        ExtensionView::RequiredCapabilities(x, p, c) => vec_fits(enc_u16s(x)) && vec_fits(
            enc_u16s(p),
        ) && vec_fits(enc_u16s(c)),
        ExtensionView::Unknown(_, _) => true,
    }
    &&& vec_fits(ext_data(e))
}

/// The extensions one after the other.
pub open spec fn enc_ext_list(s: Seq<ExtensionView>) -> Seq<u8>
    decreases s.len(),
{
    if s.len() == 0 {
        Seq::empty()
    } else {
        enc_ext_list(s.drop_last()) + enc_ext(s.last())
    }
}

/// The extensions on the wire, as one vector.
pub open spec fn enc_extensions(s: Seq<ExtensionView>) -> Seq<u8> {
    enc_vec(enc_ext_list(s))
}

/// Whether the extensions can be encoded.
pub open spec fn extensions_fit(s: Seq<ExtensionView>) -> bool {
    &&& forall|i: int| 0 <= i < s.len() ==> ext_fits(#[trigger] s[i])
    &&& vec_fits(enc_ext_list(s))
}

/// The index of the first required-capabilities extension, if any.
pub open spec fn first_required_capabilities(s: Seq<ExtensionView>) -> Option<int>
    decreases s.len(),
{
    if s.len() == 0 {
        None
    } else {
        match first_required_capabilities(s.drop_last()) {
            Some(i) => Some(i),
            None => if s.last() is RequiredCapabilities {
                Some(s.len() - 1)
            } else {
                None
            },
        }
    }
}

impl Extension {
    /// A copy of this extension.
    pub fn duplicate(&self) -> (r: Extension)
        ensures
            r@ == self@,
    {
        match self {
            Extension::RequiredCapabilities(rc) => {
                let a = rc.extension_types.clone();
                let b = rc.proposal_types.clone();
                let c = rc.credential_types.clone();
                proof {
                    assert(a@ =~= rc.extension_types@);
                    assert(b@ =~= rc.proposal_types@);
                    assert(c@ =~= rc.credential_types@);
                }
                Extension::RequiredCapabilities(
                    RequiredCapabilitiesExtension {
                        extension_types: a,
                        proposal_types: b,
                        credential_types: c,
                    },
                )
            },
            Extension::Unknown(u) => Extension::Unknown(
                UnknownExtension { extension_type: u.extension_type, data: copy_bytes(&u.data) },
            ),
        }
    }

    /// Encodes this extension.
    pub fn encode(&self) -> (r: Result<Vec<u8>, CodecError>)
        ensures
            r is Ok <==> ext_fits(self@),
            r is Ok ==> r->Ok_0@ == enc_ext(self@),
    {
        let (t, data): (u16, Vec<u8>) = match self {
            Extension::RequiredCapabilities(rc) => {
                let x = encode_u16s(rc.extension_types.as_slice());
                let p = encode_u16s(rc.proposal_types.as_slice());
                let c = encode_u16s(rc.credential_types.as_slice());
                let mut d = encode_vector(x.as_slice())?;
                let mut e = encode_vector(p.as_slice())?;
                let mut f = encode_vector(c.as_slice())?;
                d.append(&mut e);
                d.append(&mut f);
                (REQUIRED_CAPABILITIES_TYPE, d)
            },
            Extension::Unknown(u) => (u.extension_type, copy_bytes(&u.data)),
        };
        assert(data@ == ext_data(self@));
        let mut out = encode_be(t as u64, 2);
        let mut d = encode_vector(data.as_slice())?;
        out.append(&mut d);
        Ok(out)
    }
}

impl Extensions {
    /// No extensions.
    pub fn empty() -> (r: Extensions)
        ensures
            r@ == Seq::<ExtensionView>::empty(),
    {
        let r = Extensions { list: Vec::new() };
        assert(r@ =~= Seq::<ExtensionView>::empty());
        r
    }

    /// A copy of these extensions.
    pub fn duplicate(&self) -> (r: Extensions)
        ensures
            r@ == self@,
    {
        let mut out: Vec<Extension> = Vec::new();
        let mut i: usize = 0;
        while i < self.list.len()
            invariant
                i <= self.list@.len(),
                out@.len() == i,
                forall|k: int| 0 <= k < i ==> (#[trigger] out@[k])@ == self.list@[k]@,
            decreases self.list@.len() - i,
        {
            out.push(self.list[i].duplicate());
            i = i + 1;
        }
        let r = Extensions { list: out };
        assert(r@ =~= self@);
        r
    }

    /// The first required-capabilities extension, if there is one.
    pub fn required_capabilities(&self) -> (r: Option<&RequiredCapabilitiesExtension>)
        ensures
            match first_required_capabilities(self@) {
                None => r is None,
                Some(i) => r is Some && 0 <= i < self@.len() && self@[i] == ExtensionView::RequiredCapabilities(
                    r->Some_0.extension_types@,
                    r->Some_0.proposal_types@,
                    r->Some_0.credential_types@,
                ),
            },
    {
        let mut i: usize = 0;
        while i < self.list.len()
            invariant
                i <= self@.len(),
                self@.len() == self.list@.len(),
                first_required_capabilities(self@.subrange(0, i as int)) is None,
            decreases self.list@.len() - i,
        {
            proof {
                assert(self@.subrange(0, i + 1).drop_last() =~= self@.subrange(0, i as int));
            }
            match &self.list[i] {
                Extension::RequiredCapabilities(rc) => {
                    proof {
                        lemma_first_rc_prefix(self@, i as int);
                    }
                    return Some(rc);
                },
                _ => {},
            }
            i = i + 1;
        }
        proof {
            assert(self@.subrange(0, self@.len() as int) =~= self@);
        }
        None
    }

    /// Encodes these extensions as one vector.
    pub fn encode(&self) -> (r: Result<Vec<u8>, CodecError>)
        ensures
            r is Ok <==> extensions_fit(self@),
            r is Ok ==> r->Ok_0@ == enc_extensions(self@),
    {
        let mut body: Vec<u8> = Vec::new();
        let mut i: usize = 0;
        while i < self.list.len()
            invariant
                i <= self@.len(),
                self@.len() == self.list@.len(),
                body@ == enc_ext_list(self@.subrange(0, i as int)),
                forall|k: int| 0 <= k < i ==> ext_fits(#[trigger] self@[k]),
            decreases self.list@.len() - i,
        {
            proof {
                assert(self@.subrange(0, i + 1).drop_last() =~= self@.subrange(0, i as int));
            }
            assert(self@[i as int] == self.list@[i as int]@);
            let mut e = self.list[i].encode()?;
            body.append(&mut e);
            i = i + 1;
        }
        proof {
            assert(self@.subrange(0, self@.len() as int) =~= self@);
        }
        encode_vector(body.as_slice())
    }
}

/// Where the prefix before `i` holds no required-capabilities extension and
/// slot `i` holds one, it is the first.
proof fn lemma_first_rc_prefix(s: Seq<ExtensionView>, i: int)
    requires
        0 <= i < s.len(),
        first_required_capabilities(s.subrange(0, i)) is None,
        s[i] is RequiredCapabilities,
    ensures
        first_required_capabilities(s) == Some(i),
    decreases s.len(),
{
    if i == s.len() - 1 {
        assert(s.drop_last() =~= s.subrange(0, i));
    } else {
        assert(s.drop_last().subrange(0, i) =~= s.subrange(0, i));
        lemma_first_rc_prefix(s.drop_last(), i);
    }
}

/// The group context of one epoch.
#[derive(Debug)]
pub struct GroupContext {
    pub protocol_version: ProtocolVersion,
    pub ciphersuite: Ciphersuite,
    pub group_id: GroupId,
    pub epoch: u64,
    pub tree_hash: Vec<u8>,
    pub confirmed_transcript_hash: Vec<u8>,
    pub extensions: Extensions,
}

/// What a group context holds, as values.
pub struct GroupContextView {
    pub protocol_version: ProtocolVersion,
    pub ciphersuite: Ciphersuite,
    pub group_id: Seq<u8>,
    pub epoch: u64,
    pub tree_hash: Seq<u8>,
    pub confirmed_transcript_hash: Seq<u8>,
    pub extensions: Seq<ExtensionView>,
}

impl View for GroupContext {
    type V = GroupContextView;

    open spec fn view(&self) -> GroupContextView {
        GroupContextView {
            protocol_version: self.protocol_version,
            ciphersuite: self.ciphersuite,
            group_id: self.group_id.value@,
            epoch: self.epoch,
            tree_hash: self.tree_hash@,
            confirmed_transcript_hash: self.confirmed_transcript_hash@,
            extensions: self.extensions@,
        }
    }
}

/// The group context on the wire.
pub open spec fn enc_group_context(c: GroupContextView) -> Seq<u8> {
    be_bytes(c.protocol_version.spec_wire_id() as nat, 2) + be_bytes(
        c.ciphersuite.spec_wire_id() as nat,
        2,
    ) + enc_vec(c.group_id) + be_bytes(c.epoch as nat, 8) + enc_vec(c.tree_hash) + enc_vec(
        c.confirmed_transcript_hash,
    ) + enc_extensions(c.extensions)
}

/// Whether the group context can be encoded.
pub open spec fn group_context_fits(c: GroupContextView) -> bool {
    vec_fits(c.group_id) && vec_fits(c.tree_hash) && vec_fits(c.confirmed_transcript_hash)
        && extensions_fit(c.extensions)
}

impl GroupContext {
    /// A group context with the current protocol version.
    pub fn new(
        ciphersuite: Ciphersuite,
        group_id: GroupId,
        epoch: u64,
        tree_hash: Vec<u8>,
        confirmed_transcript_hash: Vec<u8>,
        extensions: Extensions,
    ) -> (r: GroupContext)
        ensures
            r@ == (GroupContextView {
                protocol_version: ProtocolVersion::Mls10,
                ciphersuite,
                group_id: group_id.value@,
                epoch,
                tree_hash: tree_hash@,
                confirmed_transcript_hash: confirmed_transcript_hash@,
                extensions: extensions@,
            }),
    {
        GroupContext {
            protocol_version: ProtocolVersion::Mls10,
            ciphersuite,
            group_id,
            epoch,
            tree_hash,
            confirmed_transcript_hash,
            extensions,
        }
    }

    /// A copy of this context.
    pub fn duplicate(&self) -> (r: GroupContext)
        ensures
            r@ == self@,
    {
        GroupContext {
            protocol_version: self.protocol_version,
            ciphersuite: self.ciphersuite,
            group_id: GroupId { value: copy_bytes(&self.group_id.value) },
            epoch: self.epoch,
            tree_hash: copy_bytes(&self.tree_hash),
            confirmed_transcript_hash: copy_bytes(&self.confirmed_transcript_hash),
            extensions: self.extensions.duplicate(),
        }
    }

    /// Encodes this context.
    pub fn encode(&self) -> (r: Result<Vec<u8>, CodecError>)
        ensures
            r is Ok <==> group_context_fits(self@),
            r is Ok ==> r->Ok_0@ == enc_group_context(self@),
    {
        let mut out = encode_be(self.protocol_version.wire_id() as u64, 2);
        let mut b = encode_be(self.ciphersuite.wire_id() as u64, 2);
        out.append(&mut b);
        let mut b = encode_vector(self.group_id.value.as_slice())?;
        out.append(&mut b);
        let mut b = encode_be(self.epoch, 8);
        out.append(&mut b);
        let mut b = encode_vector(self.tree_hash.as_slice())?;
        out.append(&mut b);
        let mut b = encode_vector(self.confirmed_transcript_hash.as_slice())?;
        out.append(&mut b);
        let mut b = self.extensions.encode()?;
        out.append(&mut b);
        Ok(out)
    }
}

} // verus!
