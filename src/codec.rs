//! Canonical TLS-style encoding: big-endian integers and vectors whose length
//! is written as an MLS variable-length integer in front of the content.

use vstd::prelude::*;

verus! {

/// The longest vector content that the MLS variable-length header can express.
pub const MAX_VECTOR_LEN: usize = 0x3fff_ffff;

/// Errors of the canonical encoding.
#[derive(Debug, PartialEq, Eq, Clone, Copy, Structural)]
pub enum CodecError {
    /// A vector is longer than its length header can express.
    VectorTooLong,
}

/// The variable-length header that announces `len` bytes of content: one,
/// two or four bytes, the two top bits of the first one giving the size.
pub open spec fn varint_prefix(len: nat) -> Seq<u8> {
    if len <= 0x3f {
        seq![len as u8]
    } else if len <= 0x3fff {
        seq![(0x40 + len / 0x100) as u8, (len % 0x100) as u8]
    } else {
        seq![
            (0x80 + len / 0x100_0000) as u8,
            ((len / 0x1_0000) % 0x100) as u8,
            ((len / 0x100) % 0x100) as u8,
            (len % 0x100) as u8,
        ]
    }
}

/// A vector of bytes: its header, then its content.
pub open spec fn enc_vec(b: Seq<u8>) -> Seq<u8> {
    varint_prefix(b.len()) + b
}

/// Whether a vector of this content can be encoded.
pub open spec fn vec_fits(b: Seq<u8>) -> bool {
    b.len() <= MAX_VECTOR_LEN
}

/// The `n` low-order bytes of `x`, most significant first.
pub open spec fn be_bytes(x: nat, n: nat) -> Seq<u8>
    decreases n,
{
    if n == 0 {
        Seq::empty()
    } else {
        be_bytes(x / 0x100, (n - 1) as nat).push((x % 0x100) as u8)
    }
}

/// A list of 16-bit values, each written big-endian, one after the other.
pub open spec fn enc_u16s(s: Seq<u16>) -> Seq<u8>
    decreases s.len(),
{
    if s.len() == 0 {
        Seq::empty()
    } else {
        enc_u16s(s.drop_last()) + be_bytes(s.last() as nat, 2)
    }
}

/// A list of 32-bit values, each written big-endian, one after the other.
pub open spec fn enc_u32s(s: Seq<u32>) -> Seq<u8>
    decreases s.len(),
{
    if s.len() == 0 {
        Seq::empty()
    } else {
        enc_u32s(s.drop_last()) + be_bytes(s.last() as nat, 4)
    }
}

/// Relies on tls_codec's serialization of `VLBytes` (with the "mls"
/// feature): on content of at most 2^30 - 1 bytes it writes the minimal
/// variable-length header followed by the content. Longer content trips a
/// debug assertion there, so it is not admitted.
#[verifier::external_body]
fn serialize_vl_bytes(b: &[u8]) -> (r: Option<Vec<u8>>)
    requires
        vec_fits(b@),
    ensures
        r is Some,
        r->Some_0@ == enc_vec(b@),
{
    tls_codec::Serialize::tls_serialize_detached(&tls_codec::VLBytes::new(b.to_vec())).ok()
}

/// Encodes `b` as a variable-length vector.
pub fn encode_vector(b: &[u8]) -> (r: Result<Vec<u8>, CodecError>)
    ensures
        r is Ok <==> vec_fits(b@),
        r is Ok ==> r->Ok_0@ == enc_vec(b@),
        r is Err ==> r->Err_0 == CodecError::VectorTooLong,
{
    if b.len() > MAX_VECTOR_LEN {
        return Err(CodecError::VectorTooLong);
    }
    match serialize_vl_bytes(b) {
        Some(v) => Ok(v),
        None => Err(CodecError::VectorTooLong),
    }
}

/// Writes the `n` low-order bytes of `x`, most significant first.
pub fn encode_be(x: u64, n: usize) -> (r: Vec<u8>)
    requires
        n <= 8,
    ensures
        r@ == be_bytes(x as nat, n as nat),
    decreases n,
{
    if n == 0 {
        Vec::new()
    } else {
        let mut v = encode_be(x / 0x100, n - 1);
        v.push((x % 0x100) as u8);
        v
    }
}

/// Writes each value of `s` as two big-endian bytes.
pub fn encode_u16s(s: &[u16]) -> (r: Vec<u8>)
    ensures
        r@ == enc_u16s(s@),
{
    let mut out: Vec<u8> = Vec::new();
    let mut i: usize = 0;
    while i < s.len()
        invariant
            i <= s@.len(),
            out@ == enc_u16s(s@.subrange(0, i as int)),
        decreases s@.len() - i,
    {
        let mut b = encode_be(s[i] as u64, 2);
        proof {
            let next = s@.subrange(0, i + 1);
            assert(next.drop_last() =~= s@.subrange(0, i as int));
        }
        out.append(&mut b);
        i = i + 1;
    }
    proof {
        assert(s@.subrange(0, s@.len() as int) =~= s@);
    }
    out
}

/// Writes each value of `s` as four big-endian bytes.
pub fn encode_u32s(s: &[u32]) -> (r: Vec<u8>)
    ensures
        r@ == enc_u32s(s@),
{
    let mut out: Vec<u8> = Vec::new();
    let mut i: usize = 0;
    while i < s.len()
        invariant
            i <= s@.len(),
            out@ == enc_u32s(s@.subrange(0, i as int)),
        decreases s@.len() - i,
    {
        let mut b = encode_be(s[i] as u64, 4);
        proof {
            let next = s@.subrange(0, i + 1);
            assert(next.drop_last() =~= s@.subrange(0, i as int));
        }
        out.append(&mut b);
        i = i + 1;
    }
    proof {
        assert(s@.subrange(0, s@.len() as int) =~= s@);
    }
    out
}


/// The number of header bytes that a first byte announces.
pub open spec fn header_len(b0: u8) -> nat {
    if b0 < 0x40 {
        1
    } else if b0 < 0x80 {
        2
    } else {
        4
    }
}

/// The length that a header announces.
pub open spec fn header_value(bytes: Seq<u8>) -> nat {
    let b0 = bytes[0];
    if b0 < 0x40 {
        b0 as nat
    } else if b0 < 0x80 {
        ((b0 - 0x40) * 0x100 + bytes[1]) as nat
    } else {
        ((b0 - 0x80) * 0x100_0000 + bytes[1] * 0x1_0000 + bytes[2] * 0x100 + bytes[3]) as nat
    }
}

/// Reads a vector from the front of `bytes`: its content and what follows.
/// The header must be one of the three sizes and minimal for its length.
pub open spec fn spec_decode_vector(bytes: Seq<u8>) -> Option<(Seq<u8>, Seq<u8>)> {
    if bytes.len() == 0 || bytes[0] >= 0xc0 || bytes.len() < header_len(bytes[0]) {
        None
    } else {
        let h = header_len(bytes[0]);
        let n = header_value(bytes);
        if (h == 2 && n <= 0x3f) || (h == 4 && n <= 0x3fff) || bytes.len() < h + n {
            None
        } else {
            Some((bytes.subrange(h as int, (h + n) as int), bytes.subrange((h + n) as int, bytes.len() as int)))
        }
    }
}

/// Reading back an encoded vector gives its content and leaves what
/// followed it.
pub proof fn lemma_vector_round_trip(b: Seq<u8>, rest: Seq<u8>)
    requires
        vec_fits(b),
    ensures
        spec_decode_vector(enc_vec(b) + rest) == Some((b, rest)),
{
    let bytes = enc_vec(b) + rest;
    let len = b.len();
    let p = varint_prefix(len);
    assert(bytes[0] == p[0]);
    if len <= 0x3f {
        assert(p[0] == len);
    } else if len <= 0x3fff {
        assert(p[0] == 0x40 + len / 0x100);
        assert(p[1] == len % 0x100);
        assert(bytes[1] == p[1]);
    } else {
        assert(p[0] == 0x80 + len / 0x100_0000);
        assert(bytes[1] == p[1]);
        assert(bytes[2] == p[2]);
        assert(bytes[3] == p[3]);
        assert(len == (len / 0x100_0000) * 0x100_0000 + ((len / 0x1_0000) % 0x100) * 0x1_0000 + ((len
            / 0x100) % 0x100) * 0x100 + len % 0x100);
    }
    let h = header_len(bytes[0]);
    assert(h == p.len());
    assert(header_value(bytes) == len);
    assert(bytes.subrange(h as int, (h + len) as int) =~= b);
    assert(bytes.subrange((h + len) as int, bytes.len() as int) =~= rest);
}

/// Reads a vector from the front of `bytes`; returns its content and the
/// number of bytes it took.
pub fn decode_vector(bytes: &[u8]) -> (r: Option<(Vec<u8>, usize)>)
    ensures
        match spec_decode_vector(bytes@) {
            None => r is None,
            Some((c, rest)) => r is Some && r->Some_0.0@ == c && r->Some_0.1 == bytes@.len()
                - rest.len(),
        },
{
    if bytes.len() == 0 || bytes[0] >= 0xc0 {
        return None;
    }
    let b0 = bytes[0];
    let (h, n): (usize, usize) = if b0 < 0x40 {
        (1, b0 as usize)
    } else if b0 < 0x80 {
        if bytes.len() < 2 {
            return None;
        }
        (2, ((b0 - 0x40) as usize) * 0x100 + bytes[1] as usize)
    } else {
        if bytes.len() < 4 {
            return None;
        }
        (
            4,
            ((b0 - 0x80) as usize) * 0x100_0000 + (bytes[1] as usize) * 0x1_0000 + (bytes[2] as usize)
                * 0x100 + bytes[3] as usize,
        )
    };
    assert(h == header_len(b0) && n == header_value(bytes@));
    if (h == 2 && n <= 0x3f) || (h == 4 && n <= 0x3fff) || bytes.len() - h < n {
        return None;
    }
    let mut content: Vec<u8> = Vec::new();
    let end = h + n;
    let mut i: usize = h;
    while i < end
        invariant
            end == h + n,
            h <= i <= end,
            end <= bytes@.len(),
            content@ == bytes@.subrange(h as int, i as int),
        decreases end - i,
    {
        content.push(bytes[i]);
        assert(content@ =~= bytes@.subrange(h as int, i + 1));
        i = i + 1;
    }
    Some((content, end))
}

} // verus!
