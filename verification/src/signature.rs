//! Message authentication over canonical payloads: HMAC-SHA256 signatures,
//! hex-encoded, with verification. Used to sign card-backed QR payloads.
use vstd::prelude::*;

use crate::hexcodec;
use vstd::string::StringSliceAdditionalSpecFns;

verus! {

/// What HMAC-SHA256 yields for a key and a message; fixed by the two
/// arguments alone.
pub uninterp spec fn hmac_sha256(key: Seq<u8>, msg: Seq<u8>) -> Seq<u8>;

/// Relies on ring::hmac::sign with HMAC_SHA256: the tag depends on the key
/// and message alone, and a SHA-256 tag is 32 bytes long.
#[verifier::external_body]
fn hmac_sign(key: &[u8], msg: &[u8]) -> (r: Vec<u8>)
    ensures
        r@ == hmac_sha256(key@, msg@),
        r@.len() == 32,
{
    let k = ring::hmac::Key::new(ring::hmac::HMAC_SHA256, key);
    ring::hmac::sign(&k, msg).as_ref().to_vec()
}

/// Relies on ring::hmac::verify: it recomputes the HMAC-SHA256 tag of the
/// message under the key and accepts exactly when the given tag equals it.
#[verifier::external_body]
fn hmac_check(key: &[u8], msg: &[u8], tag: &[u8]) -> (r: bool)
    ensures
        r == (tag@ == hmac_sha256(key@, msg@)),
{
    let k = ring::hmac::Key::new(ring::hmac::HMAC_SHA256, key);
    ring::hmac::verify(&k, msg, tag).is_ok()
}

#[derive(Debug, PartialEq, Eq, Structural, Clone, Copy)]
pub enum SignatureError {
    InvalidFormat,
    VerificationFailed,
}

impl SignatureError {
    /// A short description of the error.
    pub fn message(&self) -> (r: &'static str)
        ensures
            self is InvalidFormat ==> r@ == "Invalid signature format"@,
            self is VerificationFailed ==> r@ == "Signature verification failed"@,
    {
        match self {
            SignatureError::InvalidFormat => "Invalid signature format",
            SignatureError::VerificationFailed => "Signature verification failed",
        }
    }
}

/// Signs a payload using HMAC-SHA256 and returns a hex-encoded signature.
pub fn sign(payload: &str, key: &[u8]) -> (r: String)
    ensures
        r@ == hexcodec::hex_of(hmac_sha256(key@, payload.spec_bytes())),
        r@.len() == 64,
{
    let tag = hmac_sign(key, payload.as_bytes());
    let out = hexcodec::encode(&tag);
    proof {
        hexcodec::lemma_hex_of_len(hmac_sha256(key@, payload.spec_bytes()));
    }
    out
}

/// Verifies an HMAC-SHA256 signature for a payload. Returns true exactly when
/// the hex signature decodes to the tag of the payload under the key; fails
/// exactly when the signature is no even-length hex string.
pub fn verify(payload: &str, signature_hex: &str, key: &[u8]) -> (r: Result<
    bool,
    SignatureError,
>)
    ensures
        match r {
            Ok(valid) => hexcodec::hex_decode_of(signature_hex@) matches Some(sig) && (valid <==>
            sig == hmac_sha256(key@, payload.spec_bytes())),
            Err(e) => e is InvalidFormat && hexcodec::hex_decode_of(signature_hex@) is None,
        },
{
    match hexcodec::decode(signature_hex) {
        None => Err(SignatureError::InvalidFormat),
        Some(sig) => Ok(hmac_check(key, payload.as_bytes(), sig.as_slice())),
    }
}

/// Law: verifying a payload against the signature just produced for it with
/// the same key always succeeds. Over the contracts of `sign` and `verify`:
/// the hex text of the payload's tag decodes back to that tag, so `verify`
/// returns `Ok(true)`. Signing is deterministic, being a function of the key
/// and payload alone.
pub proof fn lemma_sign_verify_round_trip(key: Seq<u8>, msg: Seq<u8>)
    ensures
        hexcodec::hex_decode_of(hexcodec::hex_of(hmac_sha256(key, msg))) == Some(
            hmac_sha256(key, msg),
        ),
{
    hexcodec::lemma_hex_round_trip(hmac_sha256(key, msg));
}

} // verus!
