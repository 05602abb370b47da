use membercard::encryption::{decrypt, derive_key, encrypt, EncryptionError};
use membercard::hexcodec;

#[test]
fn test_encrypt_decrypt_roundtrip() {
    let key = derive_key("test-encryption-key-32-bytes-minimum");
    let plaintext = "Hello, World!";

    let encrypted = encrypt(plaintext, &key).unwrap();
    let decrypted = decrypt(&encrypted, &key).unwrap();

    assert_eq!(plaintext, decrypted);
}

#[test]
fn test_encryption_is_non_deterministic() {
    let key = derive_key("test-encryption-key-32-bytes-minimum");
    let plaintext = "Same text";

    let encrypted1 = encrypt(plaintext, &key).unwrap();
    let encrypted2 = encrypt(plaintext, &key).unwrap();

    // Different nonces should produce different ciphertexts
    assert_ne!(encrypted1, encrypted2);

    // But both should decrypt to the same plaintext
    assert_eq!(decrypt(&encrypted1, &key).unwrap(), plaintext);
    assert_eq!(decrypt(&encrypted2, &key).unwrap(), plaintext);
}

#[test]
fn test_wrong_key_fails() {
    let key1 = derive_key("key-one");
    let key2 = derive_key("key-two");
    let plaintext = "Secret data";

    let encrypted = encrypt(plaintext, &key1).unwrap();
    let result = decrypt(&encrypted, &key2);

    assert!(result.is_err());
}

#[test]
fn test_invalid_key_length() {
    let short_key = [0u8; 16];
    let result = encrypt("test", &short_key);

    assert!(matches!(result, Err(EncryptionError::InvalidKeyLength)));
}

#[test]
fn test_truncated_ciphertext_is_rejected() {
    let key = derive_key("some-key");
    let result = decrypt(&[1, 2, 3], &key);
    assert!(matches!(result, Err(EncryptionError::InvalidFormat)));
}

#[test]
fn test_derive_key_is_sha256() {
    // SHA-256("abc") from the reference test vectors; pins down that key
    // derivation really hashes the secret.
    let key = derive_key("abc");
    assert_eq!(key.len(), 32);
    assert_eq!(
        hexcodec::encode(&key),
        "ba7816bf8f01cfea414140de5dae2223b00361a396177a9cb410ff61f20015ad"
    );
}

#[test]
fn test_hex_round_trip() {
    let bytes = vec![0u8, 1, 15, 16, 127, 128, 255];
    let text = hexcodec::encode(&bytes);
    assert_eq!(text, "00010f107f80ff");
    assert_eq!(hexcodec::decode(&text), Some(bytes));
    assert_eq!(hexcodec::decode("0g"), None);
    assert_eq!(hexcodec::decode("abc"), None);
}
