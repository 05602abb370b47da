use membercard::signature::{sign, verify};

#[test]
fn test_sign_and_verify() {
    let key = b"test-signing-key-should-be-secret";
    let payload = "card_id=123&member_id=456&issuer_id=789";

    let signature = sign(payload, key);
    assert!(!signature.is_empty());

    let is_valid = verify(payload, &signature, key).unwrap();
    assert!(is_valid);
}

#[test]
fn test_verify_fails_with_wrong_key() {
    let key1 = b"key-one";
    let key2 = b"key-two";
    let payload = "some data";

    let signature = sign(payload, key1);
    let is_valid = verify(payload, &signature, key2).unwrap();

    assert!(!is_valid);
}

#[test]
fn test_verify_fails_with_tampered_payload() {
    let key = b"test-key";
    let payload = "original data";
    let tampered = "tampered data";

    let signature = sign(payload, key);
    let is_valid = verify(tampered, &signature, key).unwrap();

    assert!(!is_valid);
}

#[test]
fn test_verify_fails_with_invalid_hex() {
    let key = b"test-key";
    let payload = "data";

    let result = verify(payload, "not-valid-hex!!!", key);
    assert!(result.is_err());
}

#[test]
fn test_deterministic_signatures() {
    let key = b"test-key";
    let payload = "same payload";

    let sig1 = sign(payload, key);
    let sig2 = sign(payload, key);

    assert_eq!(sig1, sig2);
}

#[test]
fn test_known_hmac_vector() {
    // HMAC-SHA256 with an empty key and empty message, from the reference
    // implementation; pins down that signing really runs HMAC-SHA256 and
    // encodes it as lowercase hex.
    let signature = sign("", b"");
    assert_eq!(
        signature,
        "b613679a0814d9ec772f95d778c35fc5ff1697c493715653c6c712144292c5ad"
    );
}

#[test]
fn test_signature_length_and_charset() {
    let signature = sign("payload", b"key");
    assert_eq!(signature.len(), 64);
    assert!(signature.chars().all(|c| c.is_ascii_hexdigit()));
}
