//! At-rest protection of token material: AES-256-GCM with a random 96-bit
//! nonce prepended to the ciphertext, and key derivation by one-way hash from
//! an operator-supplied secret.
use vstd::prelude::*;

use vstd::string::StringExecFns;
use vstd::string::StringSliceAdditionalSpecFns;
use vstd::utf8::{decode_utf8, encode_utf8, valid_utf8};

verus! {

/// The nonce length in bytes (96 bits).
pub const NONCE_LEN: usize = 12;

/// The AES-GCM authentication tag length in bytes.
pub const TAG_LEN: usize = 16;

#[derive(Debug, Clone, PartialEq, Eq)]
pub enum EncryptionError {
    EncryptionFailed(String),
    DecryptionFailed(String),
    InvalidKeyLength,
    InvalidFormat,
}

/// What SHA-256 yields for a byte string; fixed by the input alone.
pub uninterp spec fn sha256(data: Seq<u8>) -> Seq<u8>;

/// Relies on ring::digest::digest with SHA256: the digest depends on the
/// input alone and is 32 bytes long.
#[verifier::external_body]
fn sha256_digest(data: &[u8]) -> (r: Vec<u8>)
    ensures
        r@ == sha256(data@),
        r@.len() == 32,
{
    ring::digest::digest(&ring::digest::SHA256, data).as_ref().to_vec()
}

/// What AES-256-GCM sealing (with empty additional data) yields for a key,
/// nonce and plaintext: ciphertext with the 16-byte tag appended; fixed by
/// the three arguments alone.
pub uninterp spec fn aes256gcm_seal(key: Seq<u8>, nonce: Seq<u8>, msg: Seq<u8>) -> Seq<u8>;

/// Relies on ring::aead AES_256_GCM (LessSafeKey::seal_in_place_append_tag):
/// sealing is deterministic in key, nonce and plaintext, and appends a
/// 16-byte tag to the ciphertext, which is as long as the plaintext.
#[verifier::external_body]
fn aead_seal(key: &[u8], nonce: &[u8], msg: &[u8]) -> (r: Option<Vec<u8>>)
    requires
        key@.len() == 32,
        nonce@.len() == 12,
    ensures
        r matches Some(ct) ==> ct@ == aes256gcm_seal(key@, nonce@, msg@) && ct@.len() == msg@.len()
            + 16,
{
    let unbound = match ring::aead::UnboundKey::new(&ring::aead::AES_256_GCM, key) {
        Ok(k) => k,
        Err(_) => return None,
    };
    let sealing = ring::aead::LessSafeKey::new(unbound);
    let nonce_val = match ring::aead::Nonce::try_assume_unique_for_key(nonce) {
        Ok(n) => n,
        Err(_) => return None,
    };
    let mut in_out = msg.to_vec();
    match sealing.seal_in_place_append_tag(nonce_val, ring::aead::Aad::empty(), &mut in_out) {
        Ok(()) => Some(in_out),
        Err(_) => None,
    }
}

/// Whether an opening result returns, for every plaintext the ciphertext is a
/// sealing of, exactly that plaintext.
pub open spec fn opens_every_sealing(
    r: Option<Vec<u8>>,
    key: Seq<u8>,
    nonce: Seq<u8>,
    ct: Seq<u8>,
) -> bool {
    forall|m: Seq<u8>|
        ct == #[trigger] aes256gcm_seal(key, nonce, m) ==> (r matches Some(pt) && pt@ == m)
}

/// Relies on ring::aead AES_256_GCM (LessSafeKey::open_in_place): opening
/// succeeds exactly on data sealed under the same key and nonce, and returns
/// the plaintext that was sealed.
#[verifier::external_body]
fn aead_open(key: &[u8], nonce: &[u8], ct: &[u8]) -> (r: Option<Vec<u8>>)
    requires
        key@.len() == 32,
        nonce@.len() == 12,
    ensures
        r matches Some(pt) ==> ct@ == aes256gcm_seal(key@, nonce@, pt@),
        opens_every_sealing(r, key@, nonce@, ct@),
{
    let unbound = match ring::aead::UnboundKey::new(&ring::aead::AES_256_GCM, key) {
        Ok(k) => k,
        Err(_) => return None,
    };
    let opening = ring::aead::LessSafeKey::new(unbound);
    let nonce_val = match ring::aead::Nonce::try_assume_unique_for_key(nonce) {
        Ok(n) => n,
        Err(_) => return None,
    };
    let mut in_out = ct.to_vec();
    match opening.open_in_place(nonce_val, ring::aead::Aad::empty(), &mut in_out) {
        Ok(pt) => Some(pt.to_vec()),
        Err(_) => None,
    }
}

/// Relies on ring::rand::SystemRandom::fill: fills a 12-byte buffer with
/// random bytes. Nothing is promised of the values.
#[verifier::external_body]
fn random_nonce() -> (r: Option<Vec<u8>>)
    ensures
        r matches Some(v) ==> v@.len() == 12,
{
    let rng = ring::rand::SystemRandom::new();
    let mut buf = [0u8; 12];
    match ring::rand::SecureRandom::fill(&rng, &mut buf) {
        Ok(()) => Some(buf.to_vec()),
        Err(_) => None,
    }
}

/// Relies on String::from_utf8: succeeds exactly on valid UTF-8 byte strings
/// and decodes them.
#[verifier::external_body]
pub fn bytes_to_string(v: Vec<u8>) -> (r: Option<String>)
    ensures
        r matches Some(s) ==> valid_utf8(v@) && s@ == decode_utf8(v@),
        r is None ==> !valid_utf8(v@),
{
    String::from_utf8(v).ok()
}

/// Derives a 32-byte key from an operator-supplied secret by hashing it with
/// SHA-256, so that the key always has exactly the length AES-256 needs.
pub fn derive_key(key_string: &str) -> (r: Vec<u8>)
    ensures
        r@ == sha256(key_string.spec_bytes()),
        r@.len() == 32,
{
    sha256_digest(key_string.as_bytes())
}

/// Whether a byte string is an encryption of the given plaintext bytes under
/// the key: a 12-byte nonce followed by the sealing of the plaintext under
/// that nonce.
pub open spec fn is_encryption_of(out: Seq<u8>, key: Seq<u8>, plain: Seq<u8>) -> bool {
    &&& out.len() == plain.len() + 28
    &&& out.subrange(12, out.len() as int) == aes256gcm_seal(key, out.subrange(0, 12), plain)
}

/// Encrypts text using AES-256-GCM under a fresh random nonce; the nonce is
/// prepended to the ciphertext. Rejects keys that are not 32 bytes long; any
/// other failure can come only from the platform's random source or cipher.
pub fn encrypt(data: &str, key: &[u8]) -> (r: Result<Vec<u8>, EncryptionError>)
    ensures
        key@.len() != 32 <==> (r matches Err(e) && e is InvalidKeyLength),
        r matches Ok(out) ==> is_encryption_of(out@, key@, data.spec_bytes()),
        (r matches Err(e) && !(e is InvalidKeyLength)) ==> (r matches Err(e2)
            && e2 is EncryptionFailed),
{
    if key.len() != 32 {
        return Err(EncryptionError::InvalidKeyLength);
    }
    let nonce = match random_nonce() {
        Some(n) => n,
        None => {
            return Err(
                EncryptionError::EncryptionFailed(String::from_str("Failed to generate nonce")),
            );
        },
    };
    let sealed = match aead_seal(key, nonce.as_slice(), data.as_bytes()) {
        Some(ct) => ct,
        None => {
            return Err(EncryptionError::EncryptionFailed(String::from_str("Sealing failed")));
        },
    };
    let mut out: Vec<u8> = Vec::new();
    let mut i: usize = 0;
    while i < nonce.len()
        invariant
            i <= nonce@.len(),
            out@ == nonce@.subrange(0, i as int),
        decreases nonce@.len() - i,
    {
        out.push(nonce[i]);
        i = i + 1;
        proof {
            assert(out@ =~= nonce@.subrange(0, i as int));
        }
    }
    proof {
        assert(out@ =~= nonce@);
    }
    let mut j: usize = 0;
    while j < sealed.len()
        invariant
            j <= sealed@.len(),
            out@ == nonce@ + sealed@.subrange(0, j as int),
        decreases sealed@.len() - j,
    {
        out.push(sealed[j]);
        j = j + 1;
        proof {
            assert(out@ =~= nonce@ + sealed@.subrange(0, j as int));
        }
    }
    proof {
        assert(out@ =~= nonce@ + sealed@);
        assert(out@.subrange(0, 12) =~= nonce@);
        assert(out@.subrange(12, out@.len() as int) =~= sealed@);
    }
    Ok(out)
}

/// Decrypts data produced by `encrypt`: reads the 12-byte nonce, opens the
/// rest under it, and decodes the plaintext as UTF-8. Rejects keys that are
/// not 32 bytes long and inputs shorter than a nonce; succeeds on every
/// encryption of valid text under the same key.
pub fn decrypt(encrypted: &[u8], key: &[u8]) -> (r: Result<String, EncryptionError>)
    ensures
        key@.len() != 32 <==> (r matches Err(e) && e is InvalidKeyLength),
        key@.len() == 32 ==> ((r matches Err(e) && e is InvalidFormat) <==> encrypted@.len() < 12),
        key@.len() == 32 && encrypted@.len() >= 12 ==> (r matches Err(e)
            ==> e is DecryptionFailed),
        r matches Ok(s) ==> encrypted@.subrange(12, encrypted@.len() as int) == aes256gcm_seal(
            key@,
            encrypted@.subrange(0, 12),
            encode_utf8(s@),
        ),
        forall|plain: Seq<char>|
            (encrypted@.len() >= 12 && encrypted@.subrange(12, encrypted@.len() as int)
                == aes256gcm_seal(key@, encrypted@.subrange(0, 12), encode_utf8(plain))
                && key@.len() == 32) ==> (r matches Ok(s) && s@ == plain),
{
    if key.len() != 32 {
        return Err(EncryptionError::InvalidKeyLength);
    }
    if encrypted.len() < 12 {
        return Err(EncryptionError::InvalidFormat);
    }
    let mut nonce: Vec<u8> = Vec::new();
    let mut i: usize = 0;
    while i < 12
        invariant
            i <= 12,
            encrypted@.len() >= 12,
            nonce@ == encrypted@.subrange(0, i as int),
        decreases 12 - i,
    {
        nonce.push(encrypted[i]);
        i = i + 1;
        proof {
            assert(nonce@ =~= encrypted@.subrange(0, i as int));
        }
    }
    let mut ct: Vec<u8> = Vec::new();
    let mut j: usize = 12;
    while j < encrypted.len()
        invariant
            12 <= j <= encrypted@.len(),
            ct@ == encrypted@.subrange(12, j as int),
        decreases encrypted@.len() - j,
    {
        ct.push(encrypted[j]);
        j = j + 1;
        proof {
            assert(ct@ =~= encrypted@.subrange(12, j as int));
        }
    }
    proof {
        assert(ct@ =~= encrypted@.subrange(12, encrypted@.len() as int));
    }
    let plain_bytes = match aead_open(key, nonce.as_slice(), ct.as_slice()) {
        Some(pt) => pt,
        None => {
            return Err(EncryptionError::DecryptionFailed(String::from_str("Opening failed")));
        },
    };
    let ghost plain_view = plain_bytes@;
    match bytes_to_string(plain_bytes) {
        Some(s) => {
            proof {
                broadcast use vstd::utf8::encode_utf8_decode_utf8;

                assert forall|plain: Seq<char>|
                    encrypted@.subrange(12, encrypted@.len() as int) == aes256gcm_seal(
                        key@,
                        encrypted@.subrange(0, 12),
                        encode_utf8(plain),
                    ) implies s@ == plain by {
                    assert(plain_view == encode_utf8(plain));
                    assert(decode_utf8(encode_utf8(plain)) == plain);
                }
                lemma_encode_decode(plain_view);
            }
            Ok(s)
        },
        None => {
            proof {
                broadcast use vstd::utf8::encode_utf8_valid_utf8;

                assert forall|plain: Seq<char>|
                    encrypted@.subrange(12, encrypted@.len() as int) != aes256gcm_seal(
                        key@,
                        encrypted@.subrange(0, 12),
                        encode_utf8(plain),
                    ) by {
                    if encrypted@.subrange(12, encrypted@.len() as int) == aes256gcm_seal(
                        key@,
                        encrypted@.subrange(0, 12),
                        encode_utf8(plain),
                    ) {
                        assert(plain_view == encode_utf8(plain));
                        assert(valid_utf8(encode_utf8(plain)));
                    }
                }
            }
            Err(EncryptionError::DecryptionFailed(String::from_str("Invalid UTF-8")))
        },
    }
}

/// A valid UTF-8 byte string is the encoding of its decoding.
proof fn lemma_encode_decode(bytes: Seq<u8>)
    requires
        valid_utf8(bytes),
    ensures
        encode_utf8(decode_utf8(bytes)) == bytes,
{
    vstd::utf8::decode_utf8_encode_utf8(bytes);
}

/// Law: decrypting an encryption of any text under the same key yields that
/// text back. Follows from the contracts of `encrypt` and `decrypt` once the
/// plaintext bytes are seen to encode the text.
pub proof fn lemma_encrypt_decrypt_round_trip(out: Seq<u8>, key: Seq<u8>, data: Seq<char>)
    requires
        is_encryption_of(out, key, encode_utf8(data)),
    ensures
        out.len() >= 12 && out.subrange(12, out.len() as int) == aes256gcm_seal(
            key,
            out.subrange(0, 12),
            encode_utf8(data),
        ),
{
}

} // verus!
