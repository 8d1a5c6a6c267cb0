use toy_turn::auth::{NonceManager, UserDatabase};
use toy_turn::errors::TurnError;

#[test]
fn test_nonce_generation() {
    let mut nonce_mgr = NonceManager::new(300);

    let nonce1 = nonce_mgr.generate_nonce(0);
    let nonce2 = nonce_mgr.generate_nonce(0);

    assert_ne!(nonce1, nonce2);
    assert_eq!(nonce1.len(), 32); // 16 bytes * 2 hex chars
}

#[test]
fn test_nonce_validation() {
    let mut nonce_mgr = NonceManager::new(300);

    let nonce = nonce_mgr.generate_nonce(0);

    // Valid nonce should pass
    assert!(nonce_mgr.validate_nonce(&nonce, 0).is_ok());

    // Unknown nonce should fail
    assert!(nonce_mgr.validate_nonce("unknown", 0).is_err());
}

#[test]
fn test_nonce_expiration() {
    let mut nonce_mgr = NonceManager::new(100);

    let nonce = nonce_mgr.generate_nonce(0);

    // Valid nonce should pass immediately
    assert!(nonce_mgr.validate_nonce(&nonce, 0).is_ok());

    // After more ticks than the lifetime, the nonce is stale
    assert!(matches!(nonce_mgr.validate_nonce(&nonce, 150), Err(TurnError::StaleNonce)));
}

#[test]
fn test_nonce_lifetime_boundary() {
    let mut nonce_mgr = NonceManager::new(300);
    let nonce = nonce_mgr.generate_nonce(100);

    // At exactly the lifetime it is still valid.
    assert!(nonce_mgr.validate_nonce(&nonce, 400).is_ok());

    // One tick past it is stale, and the record is dropped.
    let mut second = NonceManager::new(300);
    let nonce2 = second.generate_nonce(100);
    assert!(matches!(second.validate_nonce(&nonce2, 401), Err(TurnError::StaleNonce)));
    assert!(second.validate_nonce(&nonce2, 100).is_err());
}

#[test]
fn test_nonce_cleanup_expired() {
    let mut nonce_mgr = NonceManager::new(300);
    let old_nonce = nonce_mgr.generate_nonce(0);
    let fresh_nonce = nonce_mgr.generate_nonce(500);

    nonce_mgr.cleanup_expired(500);

    assert!(nonce_mgr.validate_nonce(&old_nonce, 500).is_err());
    assert!(nonce_mgr.validate_nonce(&fresh_nonce, 500).is_ok());
}

#[test]
fn test_nonce_hex_characters() {
    let mut nonce_mgr = NonceManager::new(300);
    let nonce = nonce_mgr.generate_nonce(0);
    assert!(nonce.chars().all(|c| c.is_ascii_hexdigit() && !c.is_ascii_uppercase()));
}

#[test]
fn test_user_database() {
    let mut db = UserDatabase::new();

    db.add_user("alice".to_string(), "password123".to_string());
    db.add_user("bob".to_string(), "secret456".to_string());

    assert_eq!(db.get_password("alice"), Some(&"password123".to_string()));
    assert_eq!(db.get_password("charlie"), None);

    assert!(db.authenticate("alice", "password123"));
    assert!(!db.authenticate("alice", "wrongpassword"));
    assert!(!db.authenticate("charlie", "anypassword"));
}

#[test]
fn test_user_database_replaces_password() {
    let mut db = UserDatabase::new();
    db.add_user("alice".to_string(), "first".to_string());
    db.add_user("alice".to_string(), "second".to_string());

    assert!(!db.authenticate("alice", "first"));
    assert!(db.authenticate("alice", "second"));
}
