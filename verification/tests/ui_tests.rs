use mailcross::composer::{ComposerMode, ComposerWindow};
use mailcross::confirm::DeleteConfirmation;
use mailcross::layout::LayoutMode;
use mailcross::search::{SearchMode, SearchPanel, SearchScope, SearchState};
use mailcross::settings::{AppTheme, SettingsWindow};
use mailcross::types::Email;

fn sample_emails() -> Vec<Email> {
    let mut alice = Email::new(1, "alice@example.com", "Meeting tomorrow", "2024-01-15", "at 10am");
    alice.recipient = String::from("me@example.com");
    let bob = Email::new(2, "bob@company.com", "Project update", "2024-01-14", "going well");
    let news = Email::new(3, "news@tech.com", "Weekly Tech News", "2024-01-13", "AI advances");
    vec![alice, bob, news]
}

#[test]
fn search_filters_case_insensitively() {
    let mut search = SearchState::new();
    search.start_search_all_emails();
    assert!(search.active);
    search.update_query(String::from("MEETING"));
    search.perform_search(&sample_emails());
    assert_eq!(search.result_count(), 1);
    assert_eq!(search.results[0].id, 1);
    assert!(search.has_results());
}

#[test]
fn search_modes_pick_their_field() {
    let emails = sample_emails();
    let mut search = SearchState::new();
    search.start_search_all_emails();

    search.search_mode = SearchMode::Sender;
    search.update_query(String::from("tech.com"));
    search.perform_search(&emails);
    assert_eq!(search.result_count(), 1);
    assert_eq!(search.results[0].id, 3);

    search.search_mode = SearchMode::Subject;
    search.perform_search(&emails);
    assert_eq!(search.result_count(), 0);

    search.search_mode = SearchMode::Body;
    search.update_query(String::from("10am"));
    search.perform_search(&emails);
    assert_eq!(search.result_count(), 1);
    assert_eq!(search.results[0].id, 1);

    // All-mode also matches the recipient.
    search.search_mode = SearchMode::All;
    search.update_query(String::from("me@example.com"));
    search.perform_search(&emails);
    assert_eq!(search.result_count(), 1);
    assert_eq!(search.results[0].id, 1);
}

#[test]
fn empty_query_clears_results() {
    let mut search = SearchState::new();
    search.start_search_all_emails();
    search.update_query(String::from("update"));
    search.perform_search(&sample_emails());
    assert_eq!(search.result_count(), 1);
    search.update_query(String::new());
    search.perform_search(&sample_emails());
    assert_eq!(search.result_count(), 0);
}

#[test]
fn result_navigation_wraps_both_ways() {
    let mut search = SearchState::new();
    search.start_search_all_emails();
    search.update_query(String::from("o"));
    search.perform_search(&sample_emails());
    assert_eq!(search.result_count(), 3);
    assert_eq!(search.selected_result, 0);
    search.next_result();
    assert_eq!(search.selected_result, 1);
    search.next_result();
    search.next_result();
    assert_eq!(search.selected_result, 0, "wraps forward");
    search.prev_result();
    assert_eq!(search.selected_result, 2, "wraps backward");
    assert_eq!(search.get_selected_email().unwrap().id, 3);
}

#[test]
fn result_navigation_normalizes_out_of_range_selections() {
    let mut search = SearchState::new();
    search.start_search_all_emails();
    search.update_query(String::from("o"));
    search.perform_search(&sample_emails());
    assert_eq!(search.result_count(), 3);

    // The fields are public, so a selection beyond the result list is
    // reachable; stepping is modular in the result count either way.
    search.selected_result = 4;
    search.next_result();
    assert_eq!(search.selected_result, 2, "(4 + 1) mod 3");

    search.selected_result = 4;
    search.prev_result();
    assert_eq!(search.selected_result, 0, "(4 + 3 - 1) mod 3");
}

#[test]
fn cancel_search_resets_everything() {
    let mut search = SearchState::new();
    search.start_search_current_email();
    assert_eq!(search.search_scope, SearchScope::CurrentEmail);
    search.update_query(String::from("x"));
    search.cancel_search();
    assert!(!search.active);
    assert_eq!(search.query, "");
    assert_eq!(search.result_count(), 0);
}

#[test]
fn mode_cycle_and_labels() {
    let mut search = SearchState::new();
    assert_eq!(search.get_mode_display(), "All");
    search.cycle_search_mode();
    assert_eq!(search.get_mode_display(), "Subject");
    search.cycle_search_mode();
    assert_eq!(search.get_mode_display(), "Sender");
    search.cycle_search_mode();
    assert_eq!(search.get_mode_display(), "Body");
    search.cycle_search_mode();
    assert_eq!(search.get_mode_display(), "All");
    assert_eq!(search.get_scope_display(), "All Emails");
    assert_eq!(
        search.get_search_title(),
        "\u{1F50D} Search All Emails (All)"
    );
}

#[test]
fn highlight_wraps_the_first_match() {
    assert_eq!(
        SearchPanel::highlight_search_term("Meeting tomorrow", "meet"),
        "**Meet**ing tomorrow"
    );
    assert_eq!(
        SearchPanel::highlight_search_term("abcabc", "b"),
        "a**b**cabc"
    );
    assert_eq!(SearchPanel::highlight_search_term("hello", "xyz"), "hello");
    assert_eq!(SearchPanel::highlight_search_term("hello", ""), "hello");
}

#[test]
fn compose_starts_blank() {
    let mut composer = ComposerWindow::new();
    assert!(!composer.visible);
    composer.show_compose(2);
    assert!(composer.visible);
    assert_eq!(composer.from_account, 2);
    assert!(composer.is_empty());
    assert!(!composer.is_valid());
    assert!(matches!(composer.mode, ComposerMode::Compose));
}

#[test]
fn reply_prefills_recipient_subject_and_quoted_body() {
    let email = Email::new(1, "alice@x", "Plans", "Mon", "line one\nline two");
    let mut composer = ComposerWindow::new();
    composer.show_reply(&email, 0);
    assert!(composer.visible);
    assert_eq!(composer.to, "alice@x");
    assert_eq!(composer.subject, "Re: Plans");
    assert_eq!(
        composer.body,
        "\n\nOn Mon, alice@x wrote:\n> line one\n> line two"
    );
    assert_eq!(composer.cc, "");
    assert_eq!(composer.bcc, "");
    assert!(composer.is_valid());

    // An existing Re: prefix is not doubled.
    let re = Email::new(2, "alice@x", "Re: Plans", "Mon", "b");
    composer.show_reply(&re, 0);
    assert_eq!(composer.subject, "Re: Plans");
}

#[test]
fn forward_prefills_banner_and_empty_recipient() {
    let mut email = Email::new(1, "alice@x", "Plans", "Mon", "the text");
    email.recipient = String::from("me@y");
    let mut composer = ComposerWindow::new();
    composer.show_forward(&email, 1);
    assert_eq!(composer.to, "");
    assert_eq!(composer.subject, "Fwd: Plans");
    assert_eq!(
        composer.body,
        "\n\n---------- Forwarded message ----------\nFrom: alice@x\nDate: Mon\nSubject: Plans\nTo: me@y\n\nthe text"
    );
    assert!(matches!(composer.mode, ComposerMode::Forward(_)));

    let fwd = Email::new(2, "alice@x", "Fwd: Plans", "Mon", "b");
    composer.show_forward(&fwd, 1);
    assert_eq!(composer.subject, "Fwd: Plans");
}

#[test]
fn composer_validity_needs_recipient_and_subject() {
    let mut composer = ComposerWindow::new();
    composer.to = String::from("x@y");
    assert!(!composer.is_valid());
    composer.subject = String::from("s");
    assert!(composer.is_valid());
    assert!(!composer.is_empty());
    composer.set_sender(3);
    assert_eq!(composer.from_account, 3);
}

#[test]
fn settings_defaults_and_reset() {
    let mut settings = SettingsWindow::new();
    assert!(!settings.visible);
    assert!(!settings.get_vim_mode());
    assert_eq!(*settings.get_theme(), AppTheme::Auto);
    assert!(settings.get_show_status_bar());
    assert!(settings.get_show_folder_icons());
    assert!(!settings.get_auto_refresh());
    assert_eq!(settings.get_refresh_interval(), 5);
    assert!(settings.get_confirm_delete());
    assert!(!settings.get_compact_layout());

    settings.show();
    assert!(settings.visible);
    settings.update_vim_mode(true);
    settings.theme = AppTheme::Dark;
    settings.reset_to_defaults();
    assert!(settings.visible, "reset keeps the dialog open");
    assert!(!settings.vim_mode);
    assert_eq!(settings.theme, AppTheme::Auto);

    settings.close();
    assert!(!settings.visible);
    settings.load_from_config();
    settings.save_to_config();
}

#[test]
fn theme_and_layout_names() {
    assert_eq!(AppTheme::Light.display_name(), "Light");
    assert_eq!(AppTheme::Dark.display_name(), "Dark");
    assert_eq!(AppTheme::Auto.display_name(), "Auto");
    assert_eq!(LayoutMode::ThreePane.display_name(), "Fullscreen");
    assert_eq!(LayoutMode::TwoPane.display_name(), "Half Horizontal");
    assert_eq!(LayoutMode::CompactPane.display_name(), "Half Vertical");
    assert_eq!(LayoutMode::MobilePane.display_name(), "Mobile");
}

#[test]
fn delete_confirmation_holds_the_prompt() {
    let confirmation = DeleteConfirmation::new(5, "Old message");
    let copy = confirmation.clone();
    assert_eq!(copy.email_id, 5);
    assert_eq!(copy.email_subject, "Old message");
}
