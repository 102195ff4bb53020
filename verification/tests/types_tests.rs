use mailcross::types::{Account, Email, Folder};

#[test]
fn new_email_starts_unread_and_unselected() {
    let email = Email::new(3, "alice@x", "Hi", "2024-01-01", "text");
    assert_eq!(email.id, 3);
    assert_eq!(email.sender, "alice@x");
    assert_eq!(email.recipient, "");
    assert_eq!(email.subject, "Hi");
    assert_eq!(email.date, "2024-01-01");
    assert_eq!(email.body, "text");
    assert!(!email.is_read);
    assert!(!email.is_selected);
}

#[test]
fn folder_label_shows_count_only_when_nonzero() {
    let full = Folder::new("INBOX", "\u{1F4E5}", 42);
    assert_eq!(full.display_name(), "\u{1F4E5} INBOX (42)");
    let empty = Folder::new("Sent", "\u{1F4E4}", 0);
    assert_eq!(empty.display_name(), "\u{1F4E4} Sent");
    let big = Folder::new("All", "f", 10305);
    assert_eq!(big.display_name(), "f All (10305)");
}

#[test]
fn new_account_has_default_folders_and_no_server() {
    let account = Account::new("Gmail", "user@gmail.com");
    assert_eq!(account.name, "Gmail");
    assert_eq!(account.email, "user@gmail.com");
    assert_eq!(account.server, "");
    assert_eq!(account.port, 993);
    assert!(account.use_tls);
    assert!(!account.is_connected);
    assert!(account.emails.is_empty());
    let names: Vec<&str> = account.folders.iter().map(|f| f.name.as_str()).collect();
    assert_eq!(names, vec!["INBOX", "Sent", "Drafts", "Spam"]);
    assert_eq!(account.folders[0].icon, "\u{1F4E5}");
}

#[test]
fn with_server_sets_the_connection_parameters() {
    let account = Account::with_server("Work", "u@w.com", "mail.w.com", 143, false);
    assert_eq!(account.server, "mail.w.com");
    assert_eq!(account.port, 143);
    assert!(!account.use_tls);
    assert!(account.folders.is_empty());
}

#[test]
fn connection_status_reflects_flag_and_configuration() {
    let mut account = Account::new("A", "a@x.com");
    assert_eq!(account.connection_status(), "\u{26AA} Not Configured");
    account.server = String::from("mail.x.com");
    assert_eq!(account.connection_status(), "\u{1F534} Disconnected");
    account.is_connected = true;
    assert_eq!(account.connection_status(), "\u{1F7E2} Connected");
}

#[test]
fn clones_are_deep_value_copies() {
    let mut original = Email::new(1, "s", "subj", "d", "b");
    let copy = original.clone();
    original.subject = String::from("changed");
    assert_eq!(copy.subject, "subj");
}
