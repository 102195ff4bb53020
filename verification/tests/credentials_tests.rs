use mailcross::credentials::{AccountCredentials, CredentialsManager};

// These run against the keyring crate's in-process mock credential store,
// which backs the default builder when no platform store is enabled. A
// fresh entry starts empty, so uncached reads fail; writes succeed and are
// then answered from the manager's read-through cache.

#[test]
fn uncached_read_fails_cleanly() {
    let mut manager = CredentialsManager::new();
    assert!(manager.get_password("nobody@x.com").is_err());
    assert!(!manager.has_credentials("nobody@x.com"));
}

#[test]
fn store_is_write_through_and_reads_hit_the_cache() {
    let mut manager = CredentialsManager::new();
    manager.store_password("user@x.com", "pw-one").expect("mock store accepts writes");
    assert_eq!(manager.get_password("user@x.com").unwrap(), "pw-one");
    assert!(manager.has_credentials("user@x.com"));

    // Overwrite.
    manager.store_password("user@x.com", "pw-two").expect("mock store accepts writes");
    assert_eq!(manager.get_password("user@x.com").unwrap(), "pw-two");

    // Another account is independent.
    assert!(manager.get_password("other@x.com").is_err());
}

#[test]
fn delete_only_clears_the_cache_when_the_store_agrees() {
    let mut manager = CredentialsManager::new();
    manager.store_password("user@x.com", "pw").expect("mock store accepts writes");
    match manager.delete_password("user@x.com") {
        // If the platform delete went through, the cached copy is gone too.
        Ok(()) => assert!(manager.get_password("user@x.com").is_err()),
        // On a failure the cache is deliberately left untouched.
        Err(_) => assert_eq!(manager.get_password("user@x.com").unwrap(), "pw"),
    }
}

#[test]
fn account_credentials_carry_connection_parameters() {
    let creds = AccountCredentials {
        email: String::from("u@x.com"),
        server: String::from("mail.x.com"),
        port: 993,
        use_tls: true,
    };
    let copy = creds.clone();
    assert_eq!(copy.email, "u@x.com");
    assert_eq!(copy.server, "mail.x.com");
    assert_eq!(copy.port, 993);
    assert!(copy.use_tls);
}
