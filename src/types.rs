//! Algorithm identifiers and error kinds shared by the cryptographic
//! provider and the group logic.

use vstd::prelude::*;
use vstd::string::StringExecFns;

verus! {

/// AEAD types.
#[derive(Debug, PartialEq, Eq, Clone, Copy, Structural)]
pub enum AeadType {
    /// AES GCM 128
    Aes128Gcm,
    /// AES GCM 256
    Aes256Gcm,
    /// ChaCha20 Poly1305
    ChaCha20Poly1305,
}

impl AeadType {
    /// Identifier of the algorithm on the wire.
    pub open spec fn spec_wire_id(self) -> u16 {
        match self {
            AeadType::Aes128Gcm => 0x0001,
            AeadType::Aes256Gcm => 0x0002,
            AeadType::ChaCha20Poly1305 => 0x0003,
        }
    }

    /// Length of the authentication tag in bytes.
    pub open spec fn spec_tag_size(self) -> usize {
        16
    }

    /// Length of the key in bytes.
    pub open spec fn spec_key_size(self) -> usize {
        match self {
            AeadType::Aes128Gcm => 16,
            AeadType::Aes256Gcm => 32,
            AeadType::ChaCha20Poly1305 => 32,
        }
    }

    /// Get the tag size of the [`AeadType`] in bytes.
    pub fn tag_size(&self) -> (r: usize)
        ensures
            r == self.spec_tag_size(),
    {
        match self {
            AeadType::Aes128Gcm => 16,
            AeadType::Aes256Gcm => 16,
            AeadType::ChaCha20Poly1305 => 16,
        }
    }

    /// Get the key size of the [`AeadType`] in bytes.
    pub fn key_size(&self) -> (r: usize)
        ensures
            r == self.spec_key_size(),
    {
        match self {
            AeadType::Aes128Gcm => 16,
            AeadType::Aes256Gcm => 32,
            AeadType::ChaCha20Poly1305 => 32,
        }
    }

    /// The identifier of the algorithm on the wire.
    pub fn wire_id(&self) -> (r: u16)
        ensures
            r == self.spec_wire_id(),
    {
        match self {
            AeadType::Aes128Gcm => 0x0001,
            AeadType::Aes256Gcm => 0x0002,
            AeadType::ChaCha20Poly1305 => 0x0003,
        }
    }
}

/// Hash types.
#[allow(non_camel_case_types)]
#[derive(Debug, PartialEq, Eq, Clone, Copy, Structural)]
pub enum HashType {
    Sha2_256,
    Sha2_512,
}

impl HashType {
    /// Output length of the hash in bytes.
    pub open spec fn spec_size(self) -> usize {
        match self {
            HashType::Sha2_256 => 32,
            HashType::Sha2_512 => 64,
        }
    }

    /// Identifier of the algorithm on the wire.
    pub open spec fn spec_wire_id(self) -> u8 {
        match self {
            HashType::Sha2_256 => 0x04,
            HashType::Sha2_512 => 0x06,
        }
    }

    /// Returns the output size of a hash by [`HashType`].
    pub fn size(&self) -> (r: usize)
        ensures
            r == self.spec_size(),
    {
        match self {
            HashType::Sha2_256 => 32,
            HashType::Sha2_512 => 64,
        }
    }

    /// The identifier of the algorithm on the wire.
    pub fn wire_id(&self) -> (r: u8)
        ensures
            r == self.spec_wire_id(),
    {
        match self {
            HashType::Sha2_256 => 0x04,
            HashType::Sha2_512 => 0x06,
        }
    }
}

/// SignatureScheme according to IANA TLS parameters.
#[allow(non_camel_case_types)]
#[derive(Copy, Hash, Eq, PartialEq, Clone, Debug, Structural)]
pub enum SignatureScheme {
    /// ECDSA_SECP256R1_SHA256
    ECDSA_SECP256R1_SHA256,
    /// ECDSA_SECP521R1_SHA512
    ECDSA_SECP521R1_SHA512,
    /// ED25519
    ED25519,
    /// ED448
    ED448,
}

impl SignatureScheme {
    /// Identifier of the scheme on the wire.
    pub open spec fn spec_wire_id(self) -> u16 {
        match self {
            SignatureScheme::ECDSA_SECP256R1_SHA256 => 0x0403,
            SignatureScheme::ECDSA_SECP521R1_SHA512 => 0x0603,
            SignatureScheme::ED25519 => 0x0807,
            SignatureScheme::ED448 => 0x0808,
        }
    }

    /// The identifier of the scheme on the wire.
    pub fn wire_id(&self) -> (r: u16)
        ensures
            r == self.spec_wire_id(),
    {
        match self {
            SignatureScheme::ECDSA_SECP256R1_SHA256 => 0x0403,
            SignatureScheme::ECDSA_SECP521R1_SHA512 => 0x0603,
            SignatureScheme::ED25519 => 0x0807,
            SignatureScheme::ED448 => 0x0808,
        }
    }

    /// Reads a scheme from its wire identifier; an unknown identifier is
    /// rejected with a message that names it.
    pub fn try_from(value: u16) -> (r: Result<SignatureScheme, String>)
        ensures
            r is Ok <==> (value == 0x0403 || value == 0x0603 || value == 0x0807 || value == 0x0808),
            r is Ok ==> r->Ok_0.spec_wire_id() == value,
            r is Err ==> r->Err_0@ == unsupported_scheme_text(value),
    {
        match value {
            0x0403 => Ok(SignatureScheme::ECDSA_SECP256R1_SHA256),
            0x0603 => Ok(SignatureScheme::ECDSA_SECP521R1_SHA512),
            0x0807 => Ok(SignatureScheme::ED25519),
            0x0808 => Ok(SignatureScheme::ED448),
            _ => Err(unsupported_scheme_message(value)),
        }
    }
}

/// The decimal digit `d` as a character.
pub open spec fn digit_char(d: nat) -> char {
    if d == 0 { '0' } else if d == 1 { '1' } else if d == 2 { '2' } else if d == 3 { '3' } else if d
        == 4 { '4' } else if d == 5 { '5' } else if d == 6 { '6' } else if d == 7 { '7' } else if d
        == 8 { '8' } else { '9' }
}

/// `n` written in decimal, without leading zeros.
pub open spec fn decimal(n: nat) -> Seq<char>
    decreases n,
{
    if n < 10 {
        seq![digit_char(n)]
    } else {
        decimal(n / 10) + seq![digit_char(n % 10)]
    }
}

/// The message that rejects an unknown signature scheme identifier.
pub open spec fn unsupported_scheme_text(value: u16) -> Seq<char> {
    "Unsupported SignatureScheme: "@ + decimal(value as nat)
}

/// The one-character string of a decimal digit.
fn digit_str(d: u16) -> (r: &'static str)
    requires
        d < 10,
    ensures
        r@ == seq![digit_char(d as nat)],
{
    proof {
        reveal_strlit("0");
        reveal_strlit("1");
        reveal_strlit("2");
        reveal_strlit("3");
        reveal_strlit("4");
        reveal_strlit("5");
        reveal_strlit("6");
        reveal_strlit("7");
        reveal_strlit("8");
        reveal_strlit("9");
    }
    match d {
        0 => "0",
        1 => "1",
        2 => "2",
        3 => "3",
        4 => "4",
        5 => "5",
        6 => "6",
        7 => "7",
        8 => "8",
        _ => "9",
    }
}

/// Appends `n` in decimal to `s`.
fn append_decimal(s: &mut String, n: u16)
    ensures
        final(s)@ == old(s)@ + decimal(n as nat),
    decreases n,
{
    if n >= 10 {
        append_decimal(s, n / 10);
    }
    s.append(digit_str(n % 10));
    assert(final(s)@ =~= old(s)@ + decimal(n as nat));
}

/// The message that rejects the identifier `value`.
fn unsupported_scheme_message(value: u16) -> (r: String)
    ensures
        r@ == unsupported_scheme_text(value),
{
    let mut s = "Unsupported SignatureScheme: ".to_owned();
    append_decimal(&mut s, value);
    s
}

/// The MLS ciphersuites: each fixes the KEM, AEAD, hash and signature
/// algorithms of a group.
#[allow(non_camel_case_types)]
#[derive(Debug, PartialEq, Eq, Clone, Copy, Structural)]
pub enum Ciphersuite {
    MLS_128_DHKEMX25519_AES128GCM_SHA256_Ed25519,
    MLS_128_DHKEMP256_AES128GCM_SHA256_P256,
    MLS_128_DHKEMX25519_CHACHA20POLY1305_SHA256_Ed25519,
    MLS_256_DHKEMX448_AES256GCM_SHA512_Ed448,
    MLS_256_DHKEMP521_AES256GCM_SHA512_P521,
    MLS_256_DHKEMX448_CHACHA20POLY1305_SHA512_Ed448,
}

impl Ciphersuite {
    /// Identifier of the ciphersuite on the wire.
    pub open spec fn spec_wire_id(self) -> u16 {
        match self {
            Ciphersuite::MLS_128_DHKEMX25519_AES128GCM_SHA256_Ed25519 => 0x0001,
            Ciphersuite::MLS_128_DHKEMP256_AES128GCM_SHA256_P256 => 0x0002,
            Ciphersuite::MLS_128_DHKEMX25519_CHACHA20POLY1305_SHA256_Ed25519 => 0x0003,
            Ciphersuite::MLS_256_DHKEMX448_AES256GCM_SHA512_Ed448 => 0x0004,
            Ciphersuite::MLS_256_DHKEMP521_AES256GCM_SHA512_P521 => 0x0005,
            Ciphersuite::MLS_256_DHKEMX448_CHACHA20POLY1305_SHA512_Ed448 => 0x0006,
        }
    }

    /// The hash algorithm of the ciphersuite.
    pub open spec fn spec_hash_algorithm(self) -> HashType {
        match self {
            Ciphersuite::MLS_128_DHKEMX25519_AES128GCM_SHA256_Ed25519 => HashType::Sha2_256,
            Ciphersuite::MLS_128_DHKEMP256_AES128GCM_SHA256_P256 => HashType::Sha2_256,
            Ciphersuite::MLS_128_DHKEMX25519_CHACHA20POLY1305_SHA256_Ed25519 => HashType::Sha2_256,
            _ => HashType::Sha2_512,
        }
    }

    /// The signature scheme of the ciphersuite.
    pub open spec fn spec_signature_algorithm(self) -> SignatureScheme {
        match self {
            Ciphersuite::MLS_128_DHKEMX25519_AES128GCM_SHA256_Ed25519 => SignatureScheme::ED25519,
            Ciphersuite::MLS_128_DHKEMP256_AES128GCM_SHA256_P256 => SignatureScheme::ECDSA_SECP256R1_SHA256,
            Ciphersuite::MLS_128_DHKEMX25519_CHACHA20POLY1305_SHA256_Ed25519 => SignatureScheme::ED25519,
            Ciphersuite::MLS_256_DHKEMX448_AES256GCM_SHA512_Ed448 => SignatureScheme::ED448,
            Ciphersuite::MLS_256_DHKEMP521_AES256GCM_SHA512_P521 => SignatureScheme::ECDSA_SECP521R1_SHA512,
            Ciphersuite::MLS_256_DHKEMX448_CHACHA20POLY1305_SHA512_Ed448 => SignatureScheme::ED448,
        }
    }

    /// The AEAD of the ciphersuite.
    pub open spec fn spec_aead_algorithm(self) -> AeadType {
        match self {
            Ciphersuite::MLS_128_DHKEMX25519_AES128GCM_SHA256_Ed25519 => AeadType::Aes128Gcm,
            Ciphersuite::MLS_128_DHKEMP256_AES128GCM_SHA256_P256 => AeadType::Aes128Gcm,
            Ciphersuite::MLS_128_DHKEMX25519_CHACHA20POLY1305_SHA256_Ed25519 => AeadType::ChaCha20Poly1305,
            Ciphersuite::MLS_256_DHKEMX448_AES256GCM_SHA512_Ed448 => AeadType::Aes256Gcm,
            Ciphersuite::MLS_256_DHKEMP521_AES256GCM_SHA512_P521 => AeadType::Aes256Gcm,
            Ciphersuite::MLS_256_DHKEMX448_CHACHA20POLY1305_SHA512_Ed448 => AeadType::ChaCha20Poly1305,
        }
    }

    /// The identifier of the ciphersuite on the wire.
    pub fn wire_id(&self) -> (r: u16)
        ensures
            r == self.spec_wire_id(),
    {
        match self {
            Ciphersuite::MLS_128_DHKEMX25519_AES128GCM_SHA256_Ed25519 => 0x0001,
            Ciphersuite::MLS_128_DHKEMP256_AES128GCM_SHA256_P256 => 0x0002,
            Ciphersuite::MLS_128_DHKEMX25519_CHACHA20POLY1305_SHA256_Ed25519 => 0x0003,
            Ciphersuite::MLS_256_DHKEMX448_AES256GCM_SHA512_Ed448 => 0x0004,
            Ciphersuite::MLS_256_DHKEMP521_AES256GCM_SHA512_P521 => 0x0005,
            Ciphersuite::MLS_256_DHKEMX448_CHACHA20POLY1305_SHA512_Ed448 => 0x0006,
        }
    }

    /// The hash algorithm of the ciphersuite.
    pub fn hash_algorithm(&self) -> (r: HashType)
        ensures
            r == self.spec_hash_algorithm(),
    {
        match self {
            Ciphersuite::MLS_128_DHKEMX25519_AES128GCM_SHA256_Ed25519 => HashType::Sha2_256,
            Ciphersuite::MLS_128_DHKEMP256_AES128GCM_SHA256_P256 => HashType::Sha2_256,
            Ciphersuite::MLS_128_DHKEMX25519_CHACHA20POLY1305_SHA256_Ed25519 => HashType::Sha2_256,
            _ => HashType::Sha2_512,
        }
    }

    /// The signature scheme of the ciphersuite.
    pub fn signature_algorithm(&self) -> (r: SignatureScheme)
        ensures
            r == self.spec_signature_algorithm(),
    {
        match self {
            Ciphersuite::MLS_128_DHKEMX25519_AES128GCM_SHA256_Ed25519 => SignatureScheme::ED25519,
            Ciphersuite::MLS_128_DHKEMP256_AES128GCM_SHA256_P256 => SignatureScheme::ECDSA_SECP256R1_SHA256,
            Ciphersuite::MLS_128_DHKEMX25519_CHACHA20POLY1305_SHA256_Ed25519 => SignatureScheme::ED25519,
            Ciphersuite::MLS_256_DHKEMX448_AES256GCM_SHA512_Ed448 => SignatureScheme::ED448,
            Ciphersuite::MLS_256_DHKEMP521_AES256GCM_SHA512_P521 => SignatureScheme::ECDSA_SECP521R1_SHA512,
            Ciphersuite::MLS_256_DHKEMX448_CHACHA20POLY1305_SHA512_Ed448 => SignatureScheme::ED448,
        }
    }

    /// The AEAD of the ciphersuite.
    pub fn aead_algorithm(&self) -> (r: AeadType)
        ensures
            r == self.spec_aead_algorithm(),
    {
        match self {
            Ciphersuite::MLS_128_DHKEMX25519_AES128GCM_SHA256_Ed25519 => AeadType::Aes128Gcm,
            Ciphersuite::MLS_128_DHKEMP256_AES128GCM_SHA256_P256 => AeadType::Aes128Gcm,
            Ciphersuite::MLS_128_DHKEMX25519_CHACHA20POLY1305_SHA256_Ed25519 => AeadType::ChaCha20Poly1305,
            Ciphersuite::MLS_256_DHKEMX448_AES256GCM_SHA512_Ed448 => AeadType::Aes256Gcm,
            Ciphersuite::MLS_256_DHKEMP521_AES256GCM_SHA512_P521 => AeadType::Aes256Gcm,
            Ciphersuite::MLS_256_DHKEMX448_CHACHA20POLY1305_SHA512_Ed448 => AeadType::ChaCha20Poly1305,
        }
    }
}

/// Trait errors.
#[derive(Debug, PartialEq, Eq, Clone, Copy, Structural)]
pub enum Error {
    CryptoError(CryptoError),
}

/// Crypto errors.
#[derive(Debug, PartialEq, Eq, Clone, Copy, Structural)]
pub enum CryptoError {
    CryptoLibraryError,
    AeadDecryptionError,
    HpkeDecryptionError,
    UnsupportedSignatureScheme,
    KdfLabelTooLarge,
    KdfSerializationError,
    HkdfOutputLengthInvalid,
    InsufficientRandomness,
    InvalidSignature,
    UnsupportedAeadAlgorithm,
    UnsupportedKdf,
    InvalidLength,
    UnsupportedHashAlgorithm,
}

impl CryptoError {
    /// The name of the error, as it is displayed.
    pub open spec fn spec_name(self) -> Seq<char> {
        match self {
            CryptoError::CryptoLibraryError => "CryptoLibraryError"@,
            CryptoError::AeadDecryptionError => "AeadDecryptionError"@,
            CryptoError::HpkeDecryptionError => "HpkeDecryptionError"@,
            CryptoError::UnsupportedSignatureScheme => "UnsupportedSignatureScheme"@,
            CryptoError::KdfLabelTooLarge => "KdfLabelTooLarge"@,
            CryptoError::KdfSerializationError => "KdfSerializationError"@,
            CryptoError::HkdfOutputLengthInvalid => "HkdfOutputLengthInvalid"@,
            CryptoError::InsufficientRandomness => "InsufficientRandomness"@,
            CryptoError::InvalidSignature => "InvalidSignature"@,
            CryptoError::UnsupportedAeadAlgorithm => "UnsupportedAeadAlgorithm"@,
            CryptoError::UnsupportedKdf => "UnsupportedKdf"@,
            CryptoError::InvalidLength => "InvalidLength"@,
            CryptoError::UnsupportedHashAlgorithm => "UnsupportedHashAlgorithm"@,
        }
    }

    /// The name of the error, as it is displayed.
    pub fn to_string(&self) -> (r: String)
        ensures
            r@ == self.spec_name(),
    {
        match self {
            CryptoError::CryptoLibraryError => "CryptoLibraryError".to_owned(),
            CryptoError::AeadDecryptionError => "AeadDecryptionError".to_owned(),
            CryptoError::HpkeDecryptionError => "HpkeDecryptionError".to_owned(),
            CryptoError::UnsupportedSignatureScheme => "UnsupportedSignatureScheme".to_owned(),
            CryptoError::KdfLabelTooLarge => "KdfLabelTooLarge".to_owned(),
            CryptoError::KdfSerializationError => "KdfSerializationError".to_owned(),
            CryptoError::HkdfOutputLengthInvalid => "HkdfOutputLengthInvalid".to_owned(),
            CryptoError::InsufficientRandomness => "InsufficientRandomness".to_owned(),
            CryptoError::InvalidSignature => "InvalidSignature".to_owned(),
            CryptoError::UnsupportedAeadAlgorithm => "UnsupportedAeadAlgorithm".to_owned(),
            CryptoError::UnsupportedKdf => "UnsupportedKdf".to_owned(),
            CryptoError::InvalidLength => "InvalidLength".to_owned(),
            CryptoError::UnsupportedHashAlgorithm => "UnsupportedHashAlgorithm".to_owned(),
        }
    }
}

} // verus!
