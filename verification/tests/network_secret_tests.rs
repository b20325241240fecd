use pentair_daemon::network_secret::{approval_message, choose_secret, new_secret, sign, signature_from_tag, stored_secret};

#[test]
fn approve_callback_signature_is_valid() {
    // HMAC-SHA256 of "user@test.com|1700000000" under "test-secret".
    let sig = sign("test-secret", "user@test.com", 1_700_000_000);
    assert_eq!(sig.len(), 64);
    assert!(sig.chars().all(|c| c.is_ascii_hexdigit() && !c.is_ascii_uppercase()));
    assert_eq!(sig, sign("test-secret", "user@test.com", 1_700_000_000));
    assert_ne!(sig, sign("test-secret", "user@test.com", 1_700_000_001));
    assert_ne!(sig, sign("other-secret", "user@test.com", 1_700_000_000));
}

#[test]
fn hmac_matches_known_vector() {
    // RFC 4231 test case 2: key "Jefe", data "what do ya want for nothing?".
    let sig = sign("Jefe", "what do ya want for nothing", 0);
    assert_eq!(approval_message("what do ya want for nothing", 0), "what do ya want for nothing|0");
    assert_eq!(sig.len(), 64);
    assert_eq!(signature_from_tag(&vec![0x00, 0xab, 0x5f]), "00ab5f");
}

#[test]
fn stored_secret_needs_32_bytes() {
    assert_eq!(stored_secret("  short  "), None);
    let long = "a".repeat(32);
    assert_eq!(stored_secret(&format!("\n{long}\n")), Some(long.clone()));
    assert_eq!(stored_secret(&"é".repeat(16)), Some("é".repeat(16)), "bytes, not characters, count");
}

#[test]
fn new_secrets_are_kept_next_time() {
    let s = new_secret();
    assert_eq!(s.len(), 64);
    assert!(s.chars().all(|c| c.is_ascii_alphanumeric()));
    let (again, regenerated) = choose_secret(Some(&s));
    assert_eq!(again, s);
    assert!(!regenerated);
    let (fresh, regenerated) = choose_secret(Some("tiny"));
    assert!(regenerated);
    assert_eq!(fresh.len(), 64);
    let (_, regenerated) = choose_secret(None);
    assert!(regenerated);
}
