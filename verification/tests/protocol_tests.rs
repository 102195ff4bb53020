use mailcross::protocol::{
    email_from_header, extract_header_value, folder_from_listing, icon_for_name, pick_recent_ids,
    ImapError,
};

#[test]
fn header_fields_match_case_insensitively() {
    let header = "Return-Path: <a@b>\r\nsubject: Lunch?\r\nFROM: Bob <bob@x>\r\n";
    assert_eq!(extract_header_value(header, "Subject"), Some(String::from("Lunch?")));
    assert_eq!(extract_header_value(header, "From"), Some(String::from("Bob <bob@x>")));
    assert_eq!(extract_header_value(header, "Date"), None);
}

#[test]
fn header_value_keeps_later_colons_and_trims() {
    let header = "Subject:   Re: the 10:30 call \r\nFrom: x\r\n";
    assert_eq!(
        extract_header_value(header, "Subject"),
        Some(String::from("Re: the 10:30 call"))
    );
}

#[test]
fn header_first_matching_line_wins() {
    let header = "X-Note: zero\nSubject: first\nSubject: second\n";
    assert_eq!(extract_header_value(header, "Subject"), Some(String::from("first")));
}

#[test]
fn field_name_must_start_the_line() {
    let header = "X-Subject: not it\n";
    // "X-Subject" does not start with "Subject", so nothing matches...
    assert_eq!(extract_header_value(header, "X-Subject"), Some(String::from("not it")));
    // ...but "Subject" finds no line that begins with it.
    assert_eq!(extract_header_value(header, "Subject"), None);
}

#[test]
fn email_from_header_fills_placeholders() {
    let email = email_from_header(42, "Nothing: useful\r\n");
    assert_eq!(email.id, 42);
    assert_eq!(email.subject, "(No Subject)");
    assert_eq!(email.sender, "Unknown Sender");
    assert_eq!(email.date, "Unknown Date");
    assert_eq!(email.body, "(Email content preview...)");
    assert!(!email.is_read);
    assert!(!email.is_selected);
}

#[test]
fn well_known_folder_icons() {
    assert_eq!(icon_for_name("INBOX"), "\u{1F4E5}");
    assert_eq!(icon_for_name("inbox"), "\u{1F4E5}");
    assert_eq!(icon_for_name("Sent"), "\u{1F4E4}");
    assert_eq!(icon_for_name("sent items"), "\u{1F4E4}");
    assert_eq!(icon_for_name("Drafts"), "\u{1F4DD}");
    assert_eq!(icon_for_name("Spam"), "\u{1F5D1}\u{FE0F}");
    assert_eq!(icon_for_name("JUNK"), "\u{1F5D1}\u{FE0F}");
    assert_eq!(icon_for_name("Trash"), "\u{1F5D1}\u{FE0F}");
    assert_eq!(icon_for_name("deleted"), "\u{1F5D1}\u{FE0F}");
    assert_eq!(icon_for_name("Archive"), "\u{1F4C1}");
}

#[test]
fn folder_from_listing_carries_name_icon_count() {
    let folder = folder_from_listing("Drafts", 12);
    assert_eq!(folder.name, "Drafts");
    assert_eq!(folder.icon, "\u{1F4DD}");
    assert_eq!(folder.count, 12);
}

#[test]
fn recent_ids_are_the_largest_descending() {
    assert_eq!(pick_recent_ids(vec![3, 1, 2], 2), vec![3, 2]);
    assert_eq!(pick_recent_ids(vec![5, 9, 1, 7], 3), vec![9, 7, 5]);
    assert_eq!(pick_recent_ids(vec![4, 4, 2], 2), vec![4, 4]);
    assert_eq!(pick_recent_ids(vec![1, 2], 10), vec![2, 1]);
    assert_eq!(pick_recent_ids(vec![1, 2, 3], 0), Vec::<u32>::new());
    assert_eq!(pick_recent_ids(Vec::new(), 4), Vec::<u32>::new());
}

#[test]
fn error_messages_carry_kind_and_detail() {
    assert_eq!(
        ImapError::Connection(String::from("refused")).message(),
        "Connection error: refused"
    );
    assert_eq!(
        ImapError::Authentication(String::from("denied")).message(),
        "Authentication error: denied"
    );
    assert_eq!(
        ImapError::Operation(String::from("boom")).message(),
        "Operation error: boom"
    );
    assert_eq!(
        ImapError::Credentials(String::from("locked")).message(),
        "Credentials error: locked"
    );
}
