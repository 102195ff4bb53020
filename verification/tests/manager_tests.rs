use mailcross::manager::{
    AccountCommand, AccountEvent, AccountManager, CommandOutcome, FolderListing, RawMessage,
    SessionRequest,
};
use mailcross::protocol::ImapError;
use mailcross::types::{Account, Email};

fn configured_account(name: &str, email: &str) -> Account {
    Account::with_server(name, email, "imap.example.com", 993, true)
}

fn connect(manager: &mut AccountManager, email: &str) {
    store_password(manager, email);
    let begun = manager.handle_command(AccountCommand::Connect(String::from(email)), 0);
    assert!(matches!(begun.request, Some(SessionRequest::Connect { .. })));
    let done = manager.finish_connect(email, Ok(()));
    assert!(matches!(done.events[0], AccountEvent::Connected(_)));
}

fn store_password(manager: &mut AccountManager, email: &str) {
    // The in-process mock credential store backs this in tests; a failure
    // would surface as a ConnectionFailed event instead of silence.
    let out = manager.handle_command(
        AccountCommand::StoreCredentials {
            email: String::from(email),
            password: String::from("test-password"),
        },
        0,
    );
    assert!(out.request.is_none());
    assert!(out.events.is_empty(), "storing into the mock store should be silent");
}

#[test]
fn connect_without_server_fails_locally() {
    let mut manager = AccountManager::new();
    // Account::new leaves the server unset.
    manager.add_account(Account::new("Gmail", "user@gmail.com"));

    let out = manager.handle_command(AccountCommand::Connect(String::from("user@gmail.com")), 0);

    assert_eq!(out.events.len(), 1, "exactly one event");
    match &out.events[0] {
        AccountEvent::ConnectionFailed(account, reason) => {
            assert_eq!(account, "user@gmail.com");
            assert_eq!(reason, "Server not configured");
        }
        other => panic!("unexpected event {other:?}"),
    }
    assert!(out.request.is_none(), "no network call may be issued");
}

#[test]
fn connect_without_credentials_fails_with_a_credentials_reason() {
    let mut manager = AccountManager::new();
    manager.add_account(configured_account("Work", "user@work.com"));
    // Nothing stored: resolving the password fails locally, before any
    // network request is built.
    let out = manager.handle_command(AccountCommand::Connect(String::from("user@work.com")), 0);
    assert!(out.request.is_none());
    assert_eq!(out.events.len(), 1);
    match &out.events[0] {
        AccountEvent::ConnectionFailed(account, reason) => {
            assert_eq!(account, "user@work.com");
            assert_eq!(
                reason,
                "Credentials error: No matching entry found in secure storage"
            );
        }
        other => panic!("unexpected event {other:?}"),
    }
}

#[test]
fn connect_for_unknown_account_does_nothing() {
    let mut manager = AccountManager::new();
    let out = manager.handle_command(AccountCommand::Connect(String::from("ghost@x.com")), 0);
    assert!(out.events.is_empty());
    assert!(out.request.is_none());
}

#[test]
fn connect_resolves_credentials_and_requests_the_session() {
    let mut manager = AccountManager::new();
    manager.add_account(configured_account("Work", "user@work.com"));
    store_password(&mut manager, "user@work.com");

    let out = manager.handle_command(AccountCommand::Connect(String::from("user@work.com")), 0);

    assert!(out.events.is_empty());
    match out.request {
        Some(SessionRequest::Connect { account, server, port, use_tls, password }) => {
            assert_eq!(account, "user@work.com");
            assert_eq!(server, "imap.example.com");
            assert_eq!(port, 993);
            assert!(use_tls);
            assert_eq!(password, "test-password");
        }
        other => panic!("unexpected request {other:?}"),
    }
}

#[test]
fn successful_connect_chains_a_folder_refresh() {
    let mut manager = AccountManager::new();
    manager.add_account(configured_account("Work", "user@work.com"));

    let done = manager.finish_connect("user@work.com", Ok(()));

    assert_eq!(done.events.len(), 1);
    match &done.events[0] {
        AccountEvent::Connected(account) => assert_eq!(account, "user@work.com"),
        other => panic!("unexpected event {other:?}"),
    }
    // The auto-chained refresh: one connect command fans out to two events.
    match &done.request {
        Some(SessionRequest::ListFolders { account }) => assert_eq!(account, "user@work.com"),
        other => panic!("unexpected request {other:?}"),
    }
    assert!(manager.get_account("user@work.com").unwrap().is_connected);

    // The chained step always yields the second event, one way or the other.
    let listed: CommandOutcome = manager.finish_list_folders(
        "user@work.com",
        Ok(vec![FolderListing { name: String::from("INBOX"), message_count: 3 }]),
        0,
    );
    assert_eq!(listed.events.len(), 1);
    assert!(matches!(&listed.events[0], AccountEvent::FoldersUpdated(_, _)));

    let failed = manager.finish_list_folders(
        "user@work.com",
        Err(ImapError::Operation(String::from("link dropped"))),
        0,
    );
    assert_eq!(failed.events.len(), 1);
    match &failed.events[0] {
        AccountEvent::ConnectionFailed(_, reason) => {
            assert_eq!(reason, "Failed to refresh folders: Operation error: link dropped");
        }
        other => panic!("unexpected event {other:?}"),
    }
}

#[test]
fn failed_connect_reports_and_changes_nothing() {
    let mut manager = AccountManager::new();
    manager.add_account(configured_account("Work", "user@work.com"));

    let done = manager.finish_connect(
        "user@work.com",
        Err(ImapError::Authentication(String::from("bad login"))),
    );

    assert_eq!(done.events.len(), 1);
    match &done.events[0] {
        AccountEvent::ConnectionFailed(account, reason) => {
            assert_eq!(account, "user@work.com");
            assert_eq!(reason, "Authentication error: bad login");
        }
        other => panic!("unexpected event {other:?}"),
    }
    assert!(done.request.is_none());
    assert!(!manager.get_account("user@work.com").unwrap().is_connected);
}

#[test]
fn refresh_folders_updates_registry_cache_and_icons() {
    let mut manager = AccountManager::new();
    manager.add_account(configured_account("Work", "user@work.com"));
    connect(&mut manager, "user@work.com");

    let out = manager.finish_list_folders(
        "user@work.com",
        Ok(vec![
            FolderListing { name: String::from("INBOX"), message_count: 7 },
            FolderListing { name: String::from("Archive"), message_count: 2 },
        ]),
        100,
    );

    match &out.events[0] {
        AccountEvent::FoldersUpdated(account, folders) => {
            assert_eq!(account, "user@work.com");
            assert_eq!(folders.len(), 2);
            assert_eq!(folders[0].name, "INBOX");
            assert_eq!(folders[0].icon, "\u{1F4E5}");
            assert_eq!(folders[0].count, 7);
            assert_eq!(folders[1].icon, "\u{1F4C1}");
        }
        other => panic!("unexpected event {other:?}"),
    }
    let account = manager.get_account("user@work.com").unwrap();
    assert_eq!(account.folders.len(), 2);
    // Each folder is cached as an empty snapshot, to be filled by fetches.
    let out = manager.handle_command(
        AccountCommand::FetchEmails {
            account_email: String::from("user@work.com"),
            folder: String::from("INBOX"),
            limit: 10,
        },
        150,
    );
    assert!(out.request.is_none());
    match &out.events[0] {
        AccountEvent::EmailsUpdated(_, folder, emails) => {
            assert_eq!(folder, "INBOX");
            assert!(emails.is_empty());
        }
        other => panic!("unexpected event {other:?}"),
    }
}

#[test]
fn refresh_folders_needs_a_session() {
    let mut manager = AccountManager::new();
    manager.add_account(configured_account("Work", "user@work.com"));

    let out = manager.handle_command(
        AccountCommand::RefreshFolders(String::from("user@work.com")),
        0,
    );

    assert!(out.request.is_none());
    match &out.events[0] {
        AccountEvent::ConnectionFailed(_, reason) => {
            assert_eq!(
                reason,
                "Failed to refresh folders: Operation error: No active session for this account"
            );
        }
        other => panic!("unexpected event {other:?}"),
    }
}

#[test]
fn cache_first_fetch_issues_no_network_call() {
    let mut manager = AccountManager::new();
    manager.add_account(configured_account("Work", "user@work.com"));
    connect(&mut manager, "user@work.com");
    manager.finish_list_folders(
        "user@work.com",
        Ok(vec![FolderListing { name: String::from("INBOX"), message_count: 1 }]),
        0,
    );

    // Fill the cache through a real fetch cycle.
    let fetch = AccountCommand::FetchEmails {
        account_email: String::from("user@work.com"),
        folder: String::from("INBOX"),
        limit: 10,
    };
    let begun = manager.handle_command(fetch, 400_000);
    assert!(begun.events.is_empty());
    assert!(matches!(begun.request, Some(SessionRequest::FetchHeaders { .. })));
    manager.finish_fetch_headers(
        "user@work.com",
        "INBOX",
        Ok(vec![RawMessage { id: 9, header: String::from("Subject: Cached\r\n") }]),
        400_000,
    );

    // A second fetch while fresh is served from the cache: the exact data,
    // and no session request at all.
    let again = manager.handle_command(
        AccountCommand::FetchEmails {
            account_email: String::from("user@work.com"),
            folder: String::from("INBOX"),
            limit: 10,
        },
        400_500,
    );
    assert!(again.request.is_none(), "zero session-layer calls on a cache hit");
    match &again.events[0] {
        AccountEvent::EmailsUpdated(_, _, emails) => {
            assert_eq!(emails.len(), 1);
            assert_eq!(emails[0].id, 9);
            assert_eq!(emails[0].subject, "Cached");
        }
        other => panic!("unexpected event {other:?}"),
    }
}

#[test]
fn fetch_parses_headers_with_placeholders() {
    let mut manager = AccountManager::new();
    manager.add_account(configured_account("Work", "user@work.com"));
    connect(&mut manager, "user@work.com");

    let out = manager.finish_fetch_headers(
        "user@work.com",
        "INBOX",
        Ok(vec![
            RawMessage {
                id: 3,
                header: String::from(
                    "From: Alice <alice@example.com>\r\nSubject: Meeting tomorrow\r\nDate: Mon, 15 Jan 2024 10:00:00 +0000\r\n",
                ),
            },
            RawMessage { id: 4, header: String::from("X-Other: nothing useful\r\n") },
        ]),
        0,
    );

    match &out.events[0] {
        AccountEvent::EmailsUpdated(_, _, emails) => {
            assert_eq!(emails.len(), 2);
            assert_eq!(emails[0].sender, "Alice <alice@example.com>");
            assert_eq!(emails[0].subject, "Meeting tomorrow");
            assert_eq!(emails[0].date, "Mon, 15 Jan 2024 10:00:00 +0000");
            assert_eq!(emails[0].body, "(Email content preview...)");
            assert_eq!(emails[1].subject, "(No Subject)");
            assert_eq!(emails[1].sender, "Unknown Sender");
            assert_eq!(emails[1].date, "Unknown Date");
        }
        other => panic!("unexpected event {other:?}"),
    }
    assert_eq!(manager.get_account("user@work.com").unwrap().emails.len(), 2);
}

#[test]
fn delete_email_is_local_only() {
    let mut manager = AccountManager::new();
    let mut account = configured_account("Work", "user@work.com");
    account.emails.push(Email::new(5, "a@x", "five", "d", "b"));
    account.emails.push(Email::new(6, "a@x", "six", "d", "b"));
    manager.add_account(account);

    let out = manager.handle_command(
        AccountCommand::DeleteEmail {
            account_email: String::from("user@work.com"),
            email_id: 5,
        },
        0,
    );

    assert_eq!(out.events.len(), 1, "exactly one EmailDeleted event");
    match &out.events[0] {
        AccountEvent::EmailDeleted(account, id) => {
            assert_eq!(account, "user@work.com");
            assert_eq!(*id, 5);
        }
        other => panic!("unexpected event {other:?}"),
    }
    assert!(out.request.is_none(), "no network call occurs");
    let left = &manager.get_account("user@work.com").unwrap().emails;
    assert_eq!(left.len(), 1);
    assert_eq!(left[0].id, 6);
}

#[test]
fn delete_email_by_index_uses_registry_order() {
    let mut manager = AccountManager::new();
    let mut first = configured_account("A", "a@x.com");
    first.emails.push(Email::new(1, "s", "only", "d", "b"));
    manager.add_account(first);
    manager.add_account(configured_account("B", "b@y.com"));

    let events = manager.delete_email_by_index(0, 1);
    assert_eq!(events.len(), 1);
    assert!(matches!(&events[0], AccountEvent::EmailDeleted(a, 1) if a == "a@x.com"));
    assert!(manager.get_account("a@x.com").unwrap().emails.is_empty());

    // Out of range: nothing happens.
    assert!(manager.delete_email_by_index(9, 1).is_empty());
}

#[test]
fn disconnect_always_succeeds_locally() {
    let mut manager = AccountManager::new();
    manager.add_account(configured_account("Work", "user@work.com"));
    connect(&mut manager, "user@work.com");
    assert!(manager.get_account("user@work.com").unwrap().is_connected);

    let out = manager.handle_command(
        AccountCommand::Disconnect(String::from("user@work.com")),
        0,
    );
    assert_eq!(out.events.len(), 1);
    assert!(matches!(&out.events[0], AccountEvent::Disconnected(a) if a == "user@work.com"));
    assert!(!manager.get_account("user@work.com").unwrap().is_connected);

    // Idempotent on an already-disconnected account.
    let again = manager.handle_command(
        AccountCommand::Disconnect(String::from("user@work.com")),
        0,
    );
    assert!(matches!(&again.events[0], AccountEvent::Disconnected(_)));
}

#[test]
fn operations_on_one_account_never_touch_another() {
    let mut manager = AccountManager::new();
    let mut other = configured_account("B", "b@y.com");
    other.emails.push(Email::new(5, "s", "keep me", "d", "b"));
    manager.add_account(configured_account("A", "a@x.com"));
    manager.add_account(other);
    connect(&mut manager, "b@y.com");
    manager.finish_fetch_headers(
        "b@y.com",
        "INBOX",
        Ok(vec![RawMessage { id: 1, header: String::from("Subject: B data\r\n") }]),
        0,
    );
    // B's folder list so the fetch writes its cache partition.
    manager.finish_list_folders(
        "b@y.com",
        Ok(vec![FolderListing { name: String::from("INBOX"), message_count: 1 }]),
        0,
    );
    manager.finish_fetch_headers(
        "b@y.com",
        "INBOX",
        Ok(vec![RawMessage { id: 1, header: String::from("Subject: B data\r\n") }]),
        0,
    );
    let b_before: Vec<String> = manager
        .get_account("b@y.com")
        .unwrap()
        .emails
        .iter()
        .map(|e| e.subject.clone())
        .collect();

    // A full burst of activity on account A.
    connect(&mut manager, "a@x.com");
    manager.finish_list_folders(
        "a@x.com",
        Ok(vec![FolderListing { name: String::from("INBOX"), message_count: 4 }]),
        10,
    );
    manager.finish_fetch_headers(
        "a@x.com",
        "INBOX",
        Ok(vec![RawMessage { id: 7, header: String::from("Subject: A data\r\n") }]),
        10,
    );
    manager.handle_command(
        AccountCommand::DeleteEmail { account_email: String::from("a@x.com"), email_id: 7 },
        10,
    );
    manager.handle_command(AccountCommand::Disconnect(String::from("a@x.com")), 10);

    // B's registry entry, emails, and cache partition are untouched.
    let b = manager.get_account("b@y.com").unwrap();
    assert!(b.is_connected);
    let b_after: Vec<String> = b.emails.iter().map(|e| e.subject.clone()).collect();
    assert_eq!(b_before, b_after);
    let cached = manager.handle_command(
        AccountCommand::FetchEmails {
            account_email: String::from("b@y.com"),
            folder: String::from("INBOX"),
            limit: 10,
        },
        20,
    );
    assert!(cached.request.is_none());
    match &cached.events[0] {
        AccountEvent::EmailsUpdated(_, _, emails) => assert_eq!(emails[0].subject, "B data"),
        other => panic!("unexpected event {other:?}"),
    }
}

#[test]
fn remove_account_tears_everything_down() {
    let mut manager = AccountManager::new();
    manager.add_account(configured_account("Work", "user@work.com"));
    connect(&mut manager, "user@work.com");
    manager.finish_list_folders(
        "user@work.com",
        Ok(vec![FolderListing { name: String::from("INBOX"), message_count: 1 }]),
        0,
    );

    let removed = manager.remove_account("user@work.com");
    assert_eq!(removed.unwrap().email, "user@work.com");
    assert!(manager.get_account("user@work.com").is_none());
    assert!(manager.get_accounts().is_empty());
    assert!(manager.remove_account("user@work.com").is_none());
}

#[test]
fn cleanup_cache_runs_the_sweep() {
    let mut manager = AccountManager::new();
    manager.add_account(configured_account("Work", "user@work.com"));
    connect(&mut manager, "user@work.com");
    manager.finish_list_folders(
        "user@work.com",
        Ok(vec![FolderListing { name: String::from("INBOX"), message_count: 1 }]),
        0,
    );

    // Advance simulated time past the default five minutes and sweep.
    manager.cleanup_cache(300_001);

    // The cached snapshot is gone, so a fetch needs the network again.
    let out = manager.handle_command(
        AccountCommand::FetchEmails {
            account_email: String::from("user@work.com"),
            folder: String::from("INBOX"),
            limit: 10,
        },
        300_002,
    );
    assert!(out.events.is_empty());
    assert!(matches!(out.request, Some(SessionRequest::FetchHeaders { .. })));
}

#[test]
fn store_credentials_round_trip() {
    let mut manager = AccountManager::new();
    manager.add_account(configured_account("Work", "user@work.com"));
    assert!(!manager.has_stored_credentials("user@work.com"));
    store_password(&mut manager, "user@work.com");
    assert!(manager.has_stored_credentials("user@work.com"));
}

#[test]
fn events_of_one_command_arrive_in_call_order() {
    let mut manager = AccountManager::new();
    manager.add_account(configured_account("Work", "user@work.com"));
    store_password(&mut manager, "user@work.com");

    // Drive one Connect command through its whole pipeline, draining events
    // in order as the front end would.
    let mut log: Vec<&'static str> = Vec::new();
    let begun = manager.handle_command(AccountCommand::Connect(String::from("user@work.com")), 0);
    assert!(begun.events.is_empty());
    let mut request = begun.request;
    while let Some(req) = request.take() {
        let outcome = match req {
            SessionRequest::Connect { account, .. } => manager.finish_connect(&account, Ok(())),
            SessionRequest::ListFolders { account } => manager.finish_list_folders(
                &account,
                Ok(vec![FolderListing { name: String::from("INBOX"), message_count: 0 }]),
                0,
            ),
            SessionRequest::FetchHeaders { account, folder, .. } => {
                manager.finish_fetch_headers(&account, &folder, Ok(Vec::new()), 0)
            }
        };
        for event in &outcome.events {
            log.push(match event {
                AccountEvent::Connected(_) => "connected",
                AccountEvent::FoldersUpdated(_, _) => "folders",
                _ => "other",
            });
        }
        request = outcome.request;
    }
    assert_eq!(log, vec!["connected", "folders"]);
}
