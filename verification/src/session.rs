//! Signature-based authentication: verification of an ed25519 signature
//! presented with an account address, and opaque session token
//! generation.
//!
//! The cryptographic primitives come from outside crates behind trusted
//! wrappers; the address and hex handling around them is verified.

use vstd::prelude::*;
use vstd::string::StringSliceAdditionalSpecFns;

use crate::stellar::decode_stellar_address;
use crate::stellar::spec_decode_stellar_address;

use ed25519_dalek::Verifier;

verus! {

/// Why signature verification could not be carried out.
#[derive(Clone, Copy, PartialEq, Eq, Structural, Debug)]
pub enum AuthError {
    /// The account address does not decode.
    InvalidAddress,
    /// The signature is not a hex string.
    InvalidSignatureHex,
    /// The signature is not 64 bytes.
    InvalidSignatureLength,
    /// The public key bytes are not a valid ed25519 key.
    InvalidPublicKey,
}

/// Credentials presented by a caller: an account address, a challenge
/// message, and a hex-encoded signature over it.
pub struct AuthPayload {
    pub stellar_address: String,
    pub message: String,
    pub signature: String,
}

/// What a successful authentication hands back: an opaque session token
/// bound to the address.
pub struct AuthResponse {
    pub token: String,
    pub stellar_address: String,
}

/// Whether a byte is an ASCII hex digit.
pub open spec fn is_hex_digit(c: u8) -> bool {
    (48 <= c <= 57) || (97 <= c <= 102) || (65 <= c <= 70)
}

/// The value of an ASCII hex digit.
pub open spec fn hex_val(c: u8) -> u8 {
    if 48 <= c <= 57 {
        (c - 48) as u8
    } else if 97 <= c <= 102 {
        ((c - 97) + 10) as u8
    } else {
        ((c - 65) + 10) as u8
    }
}

/// Whether every byte is an ASCII hex digit.
pub open spec fn all_hex(s: Seq<u8>) -> bool {
    forall|i: int| 0 <= i < s.len() ==> is_hex_digit(#[trigger] s[i])
}

/// The bytes of an even-length hex digit string, most significant digit
/// first.
pub open spec fn spec_hex_bytes(s: Seq<u8>) -> Seq<u8> {
    Seq::new(s.len() / 2, |i: int| (hex_val(s[2 * i]) << 4) | hex_val(s[2 * i + 1]))
}

/// Hex decoding: succeeds exactly on even-length all-hex-digit input.
pub open spec fn spec_hex_decode(s: Seq<u8>) -> Option<Seq<u8>> {
    if s.len() % 2 == 0 && all_hex(s) {
        Some(spec_hex_bytes(s))
    } else {
        None
    }
}

/// The lowercase hex digit of a 4-bit value.
pub open spec fn hex_char_lower(v: u8) -> char {
    if v < 10 {
        (48 + v) as char
    } else {
        (87 + v) as char
    }
}

/// The lowercase hex encoding of a byte sequence, two digits per byte,
/// most significant first.
pub open spec fn spec_hex_encode(b: Seq<u8>) -> Seq<char> {
    Seq::new(
        2 * b.len(),
        |i: int|
            if i % 2 == 0 {
                hex_char_lower(b[i / 2] >> 4)
            } else {
                hex_char_lower(b[i / 2] & 0x0F)
            },
    )
}

/// Whether 32 bytes form a valid (decompressible) ed25519 public key; a
/// function of the bytes alone.
pub uninterp spec fn ed25519_pubkey_valid(pk: Seq<u8>) -> bool;

/// Whether an ed25519 signature verifies a message under a public key; a
/// deterministic function of key, message, and signature bytes.
pub uninterp spec fn ed25519_signature_ok(pk: Seq<u8>, msg: Seq<u8>, sig: Seq<u8>) -> bool;

/// Relies on `hex::decode`: succeeds exactly on even-length input of hex
/// digits (both cases), pairing digits most significant first.
#[verifier::external_body]
fn hex_decode(s: &str) -> (r: Option<Vec<u8>>)
    ensures
        r is Some <==> spec_hex_decode(s.spec_bytes()) is Some,
        r matches Some(v) ==> Some(v@) == spec_hex_decode(s.spec_bytes()),
{
    hex::decode(s).ok()
}

/// Relies on `hex::encode`: two lowercase hex digits per byte, most
/// significant first.
#[verifier::external_body]
fn hex_encode(bytes: &Vec<u8>) -> (r: String)
    ensures
        r@ == spec_hex_encode(bytes@),
{
    hex::encode(bytes)
}

/// Relies on `rand::random`: 32 bytes from the thread-local generator;
/// nothing is assumed about their values.
#[verifier::external_body]
fn random_bytes() -> (r: Vec<u8>)
    ensures
        r@.len() == 32,
{
    rand::random::<[u8; 32]>().to_vec()
}

/// Relies on `ed25519_dalek::VerifyingKey::from_bytes` (fails exactly
/// when the bytes are not a decompressible point, a function of the
/// bytes alone) and `VerifyingKey::verify` (deterministic in key,
/// message, and signature).
#[verifier::external_body]
fn ed25519_verify(public_key: &[u8], message: &[u8], signature: &[u8]) -> (r: Result<bool, ()>)
    requires
        public_key@.len() == 32,
        signature@.len() == 64,
    ensures
        r is Err <==> !ed25519_pubkey_valid(public_key@),
        r matches Ok(b) ==> b == ed25519_signature_ok(public_key@, message@, signature@),
{
    let mut pk = [0u8; 32];
    pk.copy_from_slice(public_key);
    let mut sig = [0u8; 64];
    sig.copy_from_slice(signature);
    let key = match ed25519_dalek::VerifyingKey::from_bytes(&pk) {
        Ok(k) => k,
        Err(_) => return Err(()),
    };
    Ok(key.verify(message, &ed25519_dalek::Signature::from_bytes(&sig)).is_ok())
}

/// Outcome of signature verification over the mathematical model: the
/// exact error for each malformed input, else whether the signature
/// verifies.
pub open spec fn spec_verify_stellar_signature(
    address: Seq<u8>,
    message: Seq<u8>,
    signature_hex: Seq<u8>,
) -> Result<bool, AuthError> {
    match spec_decode_stellar_address(address) {
        Err(_) => Err(AuthError::InvalidAddress),
        Ok(pk) => match spec_hex_decode(signature_hex) {
            None => Err(AuthError::InvalidSignatureHex),
            Some(sig) => if sig.len() != 64 {
                Err(AuthError::InvalidSignatureLength)
            } else if !ed25519_pubkey_valid(pk) {
                Err(AuthError::InvalidPublicKey)
            } else {
                Ok(ed25519_signature_ok(pk, message, sig))
            },
        },
    }
}

/// Verify an ed25519 signature over `message`, presented as a hex string
/// beside a G... account address holding the public key.
pub fn verify_stellar_signature(stellar_address: &str, message: &str, signature_hex: &str) -> (r:
    Result<bool, AuthError>)
    ensures
        r == spec_verify_stellar_signature(
            stellar_address.spec_bytes(),
            message.spec_bytes(),
            signature_hex.spec_bytes(),
        ),
{
    let pubkey = match decode_stellar_address(stellar_address) {
        Ok(pk) => pk,
        Err(_) => { return Err(AuthError::InvalidAddress); },
    };
    let sig_bytes = match hex_decode(signature_hex) {
        Some(v) => v,
        None => { return Err(AuthError::InvalidSignatureHex); },
    };
    if sig_bytes.len() != 64 {
        return Err(AuthError::InvalidSignatureLength);
    }
    match ed25519_verify(pubkey.as_slice(), message.as_bytes(), sig_bytes.as_slice()) {
        Ok(b) => Ok(b),
        Err(_) => Err(AuthError::InvalidPublicKey),
    }
}

impl AuthPayload {
    /// Verify this payload's signature against its address and message.
    pub fn verify(&self) -> (r: Result<bool, AuthError>)
        ensures
            r == spec_verify_stellar_signature(
                vstd::utf8::encode_utf8(self.stellar_address@),
                vstd::utf8::encode_utf8(self.message@),
                vstd::utf8::encode_utf8(self.signature@),
            ),
    {
        verify_stellar_signature(
            self.stellar_address.as_str(),
            self.message.as_str(),
            self.signature.as_str(),
        )
    }
}

/// Generate an opaque session token: 32 random bytes as 64 lowercase hex
/// characters.
pub fn generate_token() -> (r: String)
    ensures
        r@.len() == 64,
        forall|i: int|
            0 <= i < r@.len() ==> ('0' <= #[trigger] r@[i] <= '9' || 'a' <= r@[i] <= 'f'),
{
    let bytes = random_bytes();
    let r = hex_encode(&bytes);
    proof {
        assert forall|i: int|
            0 <= i < r@.len() implies ('0' <= #[trigger] r@[i] <= '9' || 'a' <= r@[i] <= 'f') by {
            let b = bytes@[i / 2];
            assert(b >> 4 < 16 && b & 0x0F < 16) by (bit_vector);
        }
    }
    r
}

} // verus!
