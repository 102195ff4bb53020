use mailcross::cache::EmailCache;
use mailcross::types::{Email, Folder};

fn email(id: usize, subject: &str) -> Email {
    Email::new(id, "sender@example.com", subject, "2024-01-15", "body")
}

#[test]
fn freshness_is_a_strict_bound() {
    let mut cache = EmailCache::with_duration(1000);
    let folder = Folder::new("INBOX", "i", 1);
    cache.store_folder("a@x.com", folder, vec![email(1, "hi")], 100);

    // Strictly inside the window: served.
    assert!(cache.get_folder("a@x.com", "INBOX", 100).is_some());
    assert!(cache.get_folder("a@x.com", "INBOX", 1099).is_some());
    // At exactly the boundary (elapsed == duration): consistently stale.
    assert!(cache.get_folder("a@x.com", "INBOX", 1100).is_none());
    // Past it: stale.
    assert!(cache.get_folder("a@x.com", "INBOX", 1101).is_none());
}

#[test]
fn absent_and_stale_are_indistinguishable() {
    let mut cache = EmailCache::with_duration(500);
    cache.store_folder("a@x.com", Folder::new("INBOX", "i", 0), Vec::new(), 0);
    // Missing folder and stale folder both answer None.
    assert!(cache.get_folder("a@x.com", "Sent", 10).is_none());
    assert!(cache.get_folder("a@x.com", "INBOX", 600).is_none());
    assert!(cache.get_folder("nobody@x.com", "INBOX", 10).is_none());
}

#[test]
fn overwrite_is_total() {
    let mut cache = EmailCache::new();
    let f = Folder::new("INBOX", "i", 2);
    cache.store_folder("a@x.com", f.clone(), vec![email(1, "first")], 10);
    cache.store_folder("a@x.com", f, vec![email(2, "second")], 20);

    let got = cache.get_emails("a@x.com", "INBOX", 30).expect("fresh entry");
    assert_eq!(got.len(), 1);
    assert_eq!(got[0].id, 2);
    assert_eq!(got[0].subject, "second");
}

#[test]
fn get_emails_projects_and_clones() {
    let mut cache = EmailCache::new();
    cache.store_folder(
        "a@x.com",
        Folder::new("INBOX", "i", 2),
        vec![email(1, "one"), email(2, "two")],
        0,
    );
    let mut got = cache.get_emails("a@x.com", "INBOX", 1).expect("fresh");
    assert_eq!(got.len(), 2);
    // Mutating the returned copy must not corrupt the cache.
    got[0].subject = String::from("mutated");
    let again = cache.get_emails("a@x.com", "INBOX", 2).expect("fresh");
    assert_eq!(again[0].subject, "one");
}

#[test]
fn get_folders_omits_stale_entries_silently() {
    let mut cache = EmailCache::with_duration(100);
    cache.store_folder("a@x.com", Folder::new("Old", "o", 0), Vec::new(), 0);
    cache.store_folder("a@x.com", Folder::new("New", "n", 0), Vec::new(), 150);

    let fresh = cache.get_folders("a@x.com", 200);
    assert_eq!(fresh.len(), 1);
    assert_eq!(fresh[0].name, "New");
    assert!(cache.get_folders("nobody@x.com", 200).is_empty());
}

#[test]
fn email_body_round_trip() {
    let mut cache = EmailCache::new();
    cache.store_folder(
        "a@x.com",
        Folder::new("INBOX", "i", 1),
        vec![email(5, "s"), email(6, "t")],
        0,
    );
    // No body loaded yet.
    assert_eq!(cache.get_email_body("a@x.com", "INBOX", 5), None);

    cache.store_email_body("a@x.com", "INBOX", 5, String::from("full text"), 10);
    assert_eq!(
        cache.get_email_body("a@x.com", "INBOX", 5),
        Some(String::from("full text"))
    );
    // The other email is untouched.
    assert_eq!(cache.get_email_body("a@x.com", "INBOX", 6), None);
    // Unknown ids and folders stay empty.
    cache.store_email_body("a@x.com", "INBOX", 99, String::from("x"), 10);
    assert_eq!(cache.get_email_body("a@x.com", "INBOX", 99), None);
    assert_eq!(cache.get_email_body("a@x.com", "Sent", 5), None);
}

#[test]
fn eviction_sweep_drops_stale_and_empty_partitions() {
    let mut cache = EmailCache::with_duration(300_000);
    cache.store_folder("a@x.com", Folder::new("INBOX", "i", 1), vec![email(1, "s")], 0);
    cache.store_folder("b@y.com", Folder::new("INBOX", "i", 0), Vec::new(), 200_000);

    // Advance past the duration for account a only.
    cache.clear_expired(350_000);

    assert!(cache.get_folder("a@x.com", "INBOX", 350_000).is_none());
    assert!(cache.get_folder("b@y.com", "INBOX", 350_000).is_some());
    // Account a's partition was its last folder, so it is gone entirely.
    let (accounts, emails) = cache.cache_stats();
    assert_eq!(accounts, 1);
    assert_eq!(emails, 0);
}

#[test]
fn sweep_keeps_fresh_folders_of_a_mixed_partition() {
    let mut cache = EmailCache::with_duration(100);
    cache.store_folder("a@x.com", Folder::new("Old", "o", 0), vec![email(1, "x")], 0);
    cache.store_folder("a@x.com", Folder::new("New", "n", 0), vec![email(2, "y")], 150);

    cache.clear_expired(200);

    assert!(cache.get_folder("a@x.com", "Old", 200).is_none());
    assert!(cache.get_folder("a@x.com", "New", 200).is_some());
    let (accounts, emails) = cache.cache_stats();
    assert_eq!(accounts, 1);
    assert_eq!(emails, 1);
}

#[test]
fn clear_account_drops_the_partition() {
    let mut cache = EmailCache::new();
    cache.store_folder("a@x.com", Folder::new("INBOX", "i", 0), vec![email(1, "s")], 0);
    cache.store_folder("b@y.com", Folder::new("INBOX", "i", 0), Vec::new(), 0);

    cache.clear_account("a@x.com");

    assert!(cache.get_folder("a@x.com", "INBOX", 1).is_none());
    assert!(cache.get_folder("b@y.com", "INBOX", 1).is_some());
    assert_eq!(cache.cache_stats().0, 1);
}

#[test]
fn is_folder_fresh_matches_get_folder() {
    let mut cache = EmailCache::with_duration(50);
    cache.store_folder("a@x.com", Folder::new("INBOX", "i", 0), Vec::new(), 0);
    assert!(cache.is_folder_fresh("a@x.com", "INBOX", 49));
    assert!(!cache.is_folder_fresh("a@x.com", "INBOX", 50));
    assert!(!cache.is_folder_fresh("a@x.com", "Sent", 0));
}

#[test]
fn cache_stats_counts_accounts_and_emails() {
    let mut cache = EmailCache::new();
    assert_eq!(cache.cache_stats(), (0, 0));
    cache.store_folder(
        "a@x.com",
        Folder::new("INBOX", "i", 2),
        vec![email(1, "a"), email(2, "b")],
        0,
    );
    cache.store_folder("b@y.com", Folder::new("INBOX", "i", 1), vec![email(3, "c")], 0);
    assert_eq!(cache.cache_stats(), (2, 3));
}
