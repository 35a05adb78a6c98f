use tunnelx::crypto::{hash_token, sign_message, verify_signature, verify_token};

#[test]
fn token_hash_is_deterministic() {
    let token = "test-token-12345";
    let hash1 = hash_token(token);
    let hash2 = hash_token(token);
    assert_eq!(hash1, hash2);
}

#[test]
fn verify_token_succeeds_with_correct_hash() {
    let token = "my-secret-token";
    let hash = hash_token(token);
    assert!(verify_token(token, &hash));
}

#[test]
fn verify_token_fails_with_wrong_token() {
    let token = "correct-token";
    let hash = hash_token(token);
    assert!(!verify_token("wrong-token", &hash));
}

#[test]
fn hmac_signature_is_verifiable() {
    let key = b"secret-key";
    let message = b"important-message";
    let signature = sign_message(key, message);
    assert!(verify_signature(key, message, &signature));
}

#[test]
fn hmac_signature_fails_with_wrong_message() {
    let key = b"secret-key";
    let message = b"important-message";
    let signature = sign_message(key, message);
    assert!(!verify_signature(key, b"tampered-message", &signature));
}

#[test]
fn hmac_signature_fails_with_wrong_key() {
    let key = b"secret-key";
    let message = b"important-message";
    let signature = sign_message(key, message);
    assert!(!verify_signature(b"wrong-key", message, &signature));
}

#[test]
fn token_hash_is_lowercase_hex_sha256() {
    assert_eq!(
        hash_token("abc"),
        "ba7816bf8f01cfea414140de5dae2223b00361a396177a9cb410ff61f20015ad"
    );
    assert_eq!(
        hash_token(""),
        "e3b0c44298fc1c149afbf4c8996fb92427ae41e4649b934ca495991b7852b855"
    );
}

#[test]
fn token_verifies_against_its_own_hash_only() {
    let hash = hash_token("abc");
    assert!(verify_token("abc", &hash));
    assert!(!verify_token("abc", &hash.to_uppercase()));
    assert!(!verify_token("abd", &hash));
}

#[test]
fn hmac_signature_matches_rfc_4231_vector() {
    let signature = sign_message(b"Jefe", b"what do ya want for nothing?");
    assert_eq!(
        signature,
        "5bdcc146bf60754e6a042426089575c75a003f089d2739839dec58b964ec3843"
    );
}

#[test]
fn signature_that_is_not_hex_is_refused() {
    assert!(!verify_signature(b"k", b"m", "not hex at all"));
    assert!(!verify_signature(b"k", b"m", "abc"));
    assert!(!verify_signature(b"k", b"m", ""));
}

#[test]
fn uppercase_hex_signature_verifies() {
    let signature = sign_message(b"Jefe", b"what do ya want for nothing?");
    assert!(verify_signature(b"Jefe", b"what do ya want for nothing?", &signature.to_uppercase()));
}

#[test]
fn token_hash_is_64_lowercase_hex_digits() {
    for token in ["", "a", "test-token-12345", "ümlaut ✓"] {
        let h = hash_token(token);
        assert_eq!(h.len(), 64);
        assert!(h.chars().all(|c| c.is_ascii_digit() || ('a'..='f').contains(&c)));
    }
}
