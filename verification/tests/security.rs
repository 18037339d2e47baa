use europay::errors::PayError;
use europay::security::SecurityManager;

#[test]
fn tokens_are_distinct_and_reversible() {
    let mut sm = SecurityManager::new();
    let pan = "4111111111111111";
    let t1 = sm.tokenize_pan(pan);
    let t2 = sm.tokenize_pan(pan);
    assert_ne!(t1, t2);
    assert_eq!(sm.detokenize_pan(&t1), Some(pan.to_string()));
    assert_eq!(sm.detokenize_pan(&t2), Some(pan.to_string()));
    // A token does not leak the number it stands for.
    assert!(!t1.contains(pan));
}

#[test]
fn unknown_token_detokenizes_to_nothing() {
    let sm = SecurityManager::new();
    assert_eq!(sm.detokenize_pan("no-such-token"), None);
}

#[test]
fn encryption_round_trips_with_unique_nonces() {
    let sm = SecurityManager::new();
    let plaintext = b"primary account number".to_vec();
    let c1 = sm.encrypt_data(&plaintext).expect("encryption should work");
    let c2 = sm.encrypt_data(&plaintext).expect("encryption should work");
    // Fresh nonce per call: equal plaintexts give different ciphertexts.
    assert_ne!(c1, c2);
    // The body really is encrypted, not carried through.
    assert_ne!(&c1[12..12 + plaintext.len()], plaintext.as_slice());
    // Nonce and tag travel with the ciphertext.
    assert_eq!(c1.len(), plaintext.len() + 28);
    assert_eq!(sm.decrypt_data(&c1).unwrap(), plaintext);
    assert_eq!(sm.decrypt_data(&c2).unwrap(), plaintext);
}

#[test]
fn tampered_ciphertext_fails_to_decrypt() {
    let sm = SecurityManager::new();
    let plaintext = b"sensitive".to_vec();
    let mut c = sm.encrypt_data(&plaintext).unwrap();
    let last = c.len() - 1;
    c[last] ^= 0x01;
    assert_eq!(sm.decrypt_data(&c), Err(PayError::CryptoFailure));
}

#[test]
fn short_buffer_fails_to_decrypt() {
    let sm = SecurityManager::new();
    assert_eq!(sm.decrypt_data(&[0u8; 27]), Err(PayError::CryptoFailure));
    assert_eq!(sm.decrypt_data(&[]), Err(PayError::CryptoFailure));
}

#[test]
fn empty_plaintext_round_trips() {
    let sm = SecurityManager::new();
    let c = sm.encrypt_data(&[]).unwrap();
    assert_eq!(c.len(), 28);
    assert_eq!(sm.decrypt_data(&c).unwrap(), Vec::<u8>::new());
}

#[test]
fn fraud_screen_compares_against_threshold() {
    let mut sm = SecurityManager::new();
    assert!(!sm.check_fraud(1000, "4111111111111111"));
    assert!(sm.check_fraud(1001, "4111111111111111"));
    sm.set_fraud_threshold(500);
    assert!(sm.check_fraud(501, "4111111111111111"));
    assert!(!sm.check_fraud(500, "4111111111111111"));
}
