//! The cryptographic provider that the group logic is handed on each call.
//! Applications implement it over the primitives of their choice.

use vstd::prelude::*;
use crate::types::{Ciphersuite, CryptoError, HashType, SignatureScheme};

verus! {

/// Hashing, MACs and signature checks, as the group logic consumes them.
pub trait CryptoProvider {
    /// The digest of `data` under `alg`: a hash is a function of its input.
    spec fn digest(&self, alg: HashType, data: Seq<u8>) -> Seq<u8>;

    /// The MAC of `data` under `key`, built on `alg`.
    spec fn mac_of(&self, alg: HashType, key: Seq<u8>, data: Seq<u8>) -> Seq<u8>;

    /// The output of HKDF-Expand-Label over `secret` with `label`, `length`
    /// bytes long.
    spec fn expand_label_of(&self, alg: HashType, secret: Seq<u8>, label: Seq<u8>, length: usize) -> Seq<u8>;

    /// The public half of the HPKE key pair derived from `ikm`.
    spec fn hpke_public_key_of(&self, ciphersuite: Ciphersuite, ikm: Seq<u8>) -> Seq<u8>;

    /// The private half of the HPKE key pair derived from `ikm`.
    spec fn hpke_private_key_of(&self, ciphersuite: Ciphersuite, ikm: Seq<u8>) -> Seq<u8>;

    /// Whether `signature` is a valid signature over `message` under
    /// `public_key` with `scheme`.
    spec fn signature_ok(
        &self,
        scheme: SignatureScheme,
        public_key: Seq<u8>,
        message: Seq<u8>,
        signature: Seq<u8>,
    ) -> bool;

    /// Hashes `data`.
    fn hash(&self, alg: HashType, data: &[u8]) -> (r: Result<Vec<u8>, CryptoError>)
        ensures
            r is Ok ==> r->Ok_0@ == self.digest(alg, data@),
            r is Ok ==> r->Ok_0@.len() == alg.spec_size(),
    ;

    /// Computes the MAC of `data` under `key`.
    fn mac(&self, alg: HashType, key: &[u8], data: &[u8]) -> (r: Result<Vec<u8>, CryptoError>)
        ensures
            r is Ok ==> r->Ok_0@ == self.mac_of(alg, key@, data@),
    ;

    /// Expands `secret` with `label` into `length` bytes.
    fn kdf_expand_label(
        &self,
        alg: HashType,
        secret: &[u8],
        label: &[u8],
        length: usize,
    ) -> (r: Result<Vec<u8>, CryptoError>)
        ensures
            r is Ok ==> r->Ok_0@ == self.expand_label_of(alg, secret@, label@, length),
            r is Ok ==> r->Ok_0@.len() == length,
    ;

    /// Derives an HPKE key pair from `ikm`: the private key, then the
    /// public one.
    fn derive_hpke_keypair(&self, ciphersuite: Ciphersuite, ikm: &[u8]) -> (r: Result<
        (Vec<u8>, Vec<u8>),
        CryptoError,
    >)
        ensures
            r is Ok ==> r->Ok_0.0@ == self.hpke_private_key_of(ciphersuite, ikm@),
            r is Ok ==> r->Ok_0.1@ == self.hpke_public_key_of(ciphersuite, ikm@),
    ;

    /// Checks `signature` over `message` against `public_key`.
    fn verify_signature(
        &self,
        scheme: SignatureScheme,
        public_key: &[u8],
        message: &[u8],
        signature: &[u8],
    ) -> (r: Result<(), CryptoError>)
        ensures
            r is Ok <==> self.signature_ok(scheme, public_key@, message@, signature@),
    ;
}

} // verus!
