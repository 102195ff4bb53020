use mailcross::client::MailCrossApp;
use mailcross::composer::ComposerAction;
use mailcross::keyboard::KeyAction;
use mailcross::manager::AccountEvent;
use mailcross::settings::{AppTheme, SettingsAction};
use mailcross::vim::{VimCommand, VimMode};

#[test]
fn fresh_client_is_ready_with_three_accounts() {
    let app = MailCrossApp::new();
    assert_eq!(app.status_message, "Ready");
    assert_eq!(app.current_account, 0);
    let accounts = app.get_accounts();
    assert_eq!(accounts.len(), 3);
    assert_eq!(accounts[0].email, "user@gmail.com");
    assert_eq!(accounts[1].email, "user@work.com");
    assert_eq!(accounts[2].email, "user@personal.com");
}

#[test]
fn navigation_moves_the_selection_with_status() {
    let mut app = MailCrossApp::new();
    app.handle_key_action(KeyAction::NextItem);
    assert_eq!(app.selected_email, 1);
    assert_eq!(app.status_message, "Email 2");
    app.handle_key_action(KeyAction::PrevItem);
    assert_eq!(app.selected_email, 0);
    assert_eq!(app.status_message, "Email 1");
    app.handle_key_action(KeyAction::PrevItem);
    assert_eq!(app.selected_email, 0, "stops at the first email");
    app.handle_key_action(KeyAction::LastItem);
    assert_eq!(app.selected_email, 10);
    assert_eq!(app.status_message, "Last email");
    app.handle_key_action(KeyAction::NextItem);
    assert_eq!(app.selected_email, 10, "stops at the sample limit");
    app.handle_key_action(KeyAction::FirstItem);
    assert_eq!(app.selected_email, 0);
}

#[test]
fn account_switching_respects_the_registry_size() {
    let mut app = MailCrossApp::new();
    app.handle_key_action(KeyAction::SwitchAccount(2));
    assert_eq!(app.current_account, 2);
    assert_eq!(app.status_message, "Switched to account 3");
    app.handle_key_action(KeyAction::SwitchAccount(7));
    assert_eq!(app.current_account, 2, "out-of-range switch is ignored");
    assert_eq!(app.status_message, "Action: SwitchAccount(7)");
}

#[test]
fn compose_reply_forward_open_the_composer() {
    let mut app = MailCrossApp::new();
    app.handle_key_action(KeyAction::Compose);
    assert!(app.composer.visible);
    assert_eq!(app.status_message, "Compose new email");

    app.handle_key_action(KeyAction::Reply);
    assert_eq!(app.composer.to, "sender@example.com");
    assert_eq!(app.composer.subject, "Re: Test Email");
    assert_eq!(app.status_message, "Reply to email");

    app.handle_key_action(KeyAction::Forward);
    assert_eq!(app.composer.subject, "Fwd: Test Email");
    assert_eq!(app.composer.to, "");
}

#[test]
fn delete_needs_a_confirmation() {
    let mut app = MailCrossApp::new();
    app.handle_key_action(KeyAction::Delete);
    let confirmation = app.delete_confirmation.as_ref().expect("prompt staged");
    assert_eq!(confirmation.email_id, 1);
    assert_eq!(confirmation.email_subject, "Test Email");
    assert_eq!(app.status_message, "Confirm deletion");

    // Declining deletes nothing.
    let events = app.handle_delete_confirmation(false);
    assert!(events.is_empty());
    assert!(app.delete_confirmation.is_none());
    assert_eq!(app.status_message, "Deletion cancelled");

    // Confirming goes through the orchestrator (the sample account has no
    // email with that id, so the event still reports the local delete).
    app.handle_key_action(KeyAction::Delete);
    let events = app.handle_delete_confirmation(true);
    assert_eq!(events.len(), 1);
    assert!(matches!(&events[0], AccountEvent::EmailDeleted(a, 1) if a == "user@gmail.com"));
    assert_eq!(app.status_message, "Deleting email: Test Email");
}

#[test]
fn search_toggling_and_navigation() {
    let mut app = MailCrossApp::new();
    app.handle_key_action(KeyAction::SearchAllEmails);
    assert!(app.search_state.active);
    assert!(app.keyboard_handler.search_mode);
    assert_eq!(app.status_message, "Search all emails (Ctrl+Shift+F)");

    // Run the query over the sample list, then step through results.
    app.search_state.update_query(String::from("example.com"));
    let emails = app.get_current_emails();
    app.search_state.perform_search(&emails);
    app.handle_key_action(KeyAction::SearchNext);
    assert_eq!(app.status_message, "Search result 2/3");
    app.handle_key_action(KeyAction::SearchPrev);
    assert_eq!(app.status_message, "Search result 1/3");

    // The same intent closes the search again.
    app.handle_key_action(KeyAction::SearchAllEmails);
    assert!(!app.search_state.active);
    assert_eq!(app.status_message, "Search cancelled");
    app.handle_key_action(KeyAction::SearchNext);
    assert_eq!(app.status_message, "No search results");
}

#[test]
fn vim_mode_toggle_and_command_mode() {
    let mut app = MailCrossApp::new();
    app.handle_key_action(KeyAction::EnterCommandMode);
    assert_eq!(app.vim_state.mode, VimMode::Normal, "needs vim mode first");

    app.handle_key_action(KeyAction::ToggleVimMode);
    assert!(app.keyboard_handler.vim_mode);
    assert_eq!(app.status_message, "Switched to Vim mode");
    app.handle_key_action(KeyAction::EnterCommandMode);
    assert_eq!(app.vim_state.mode, VimMode::Command);
    assert_eq!(app.status_message, "Command mode");

    app.handle_key_action(KeyAction::Cancel);
    assert_eq!(app.vim_state.mode, VimMode::Normal);
    assert_eq!(app.status_message, "Cancelled");
}

#[test]
fn vim_commands_drive_the_client() {
    let mut app = MailCrossApp::new();
    app.handle_vim_command(VimCommand::EnableVimMode);
    assert!(app.keyboard_handler.vim_mode);
    assert_eq!(app.status_message, "Vim mode enabled");
    app.handle_vim_command(VimCommand::DisableVimMode);
    assert!(!app.keyboard_handler.vim_mode);
    app.handle_vim_command(VimCommand::Help);
    assert!(app.show_help);
    assert!(app.help_vim_mode);
    app.handle_vim_command(VimCommand::SetOption(String::from("number")));
    assert_eq!(app.status_message, "Set: number");
    app.handle_vim_command(VimCommand::Quit);
    assert_eq!(app.status_message, "Quit command (would close app)");
}

#[test]
fn composer_actions_close_the_dialog() {
    let mut app = MailCrossApp::new();
    app.handle_key_action(KeyAction::Compose);
    app.handle_composer_action(ComposerAction::Send);
    assert!(!app.composer.visible);
    assert_eq!(app.status_message, "Sending email from user@gmail.com");

    app.handle_key_action(KeyAction::Compose);
    app.handle_composer_action(ComposerAction::Save);
    assert_eq!(app.status_message, "Email saved as draft");

    app.handle_key_action(KeyAction::Compose);
    app.handle_composer_action(ComposerAction::Cancel);
    assert_eq!(app.status_message, "Email composition cancelled");
}

#[test]
fn settings_actions_apply_and_reset() {
    let mut app = MailCrossApp::new();
    app.handle_key_action(KeyAction::Settings);
    assert!(app.settings.visible);
    assert_eq!(app.status_message, "Opening settings");

    app.settings.vim_mode = true;
    app.handle_settings_action(SettingsAction::Apply);
    assert!(app.keyboard_handler.vim_mode);
    assert!(!app.settings.visible);
    assert_eq!(app.status_message, "Settings applied");

    app.handle_settings_action(SettingsAction::VimModeToggled(false));
    assert!(!app.keyboard_handler.vim_mode);
    assert_eq!(app.status_message, "Switched to Traditional mode");

    app.handle_settings_action(SettingsAction::ThemeChanged(AppTheme::Dark));
    assert_eq!(app.status_message, "Theme changed to Dark");

    app.handle_settings_action(SettingsAction::Reset);
    assert!(app.settings.visible);
    assert_eq!(app.settings.theme, AppTheme::Auto);
    assert_eq!(app.status_message, "Settings reset to defaults");

    app.handle_settings_action(SettingsAction::Cancel);
    assert!(!app.settings.visible);
    assert_eq!(app.status_message, "Settings cancelled");
}

#[test]
fn drained_events_update_the_status_line() {
    let mut app = MailCrossApp::new();
    app.process_events(Vec::new());
    assert_eq!(app.status_message, "Ready");
    app.process_events(vec![
        AccountEvent::Connected(String::from("user@work.com")),
        AccountEvent::EmailsUpdated(
            String::from("user@work.com"),
            String::from("INBOX"),
            Vec::new(),
        ),
    ]);
    assert_eq!(app.status_message, "Emails updated for user@work.com/INBOX");
    app.process_events(vec![AccountEvent::ConnectionFailed(
        String::from("user@work.com"),
        String::from("Server not configured"),
    )]);
    assert_eq!(
        app.status_message,
        "Failed to connect to user@work.com: Server not configured"
    );
    app.process_events(vec![AccountEvent::EmailDeleted(String::from("a@x"), 17)]);
    assert_eq!(app.status_message, "Deleted email 17 from a@x");
}

#[test]
fn help_intent_mirrors_the_input_style() {
    let mut app = MailCrossApp::new();
    app.handle_key_action(KeyAction::Help);
    assert!(app.show_help);
    assert!(!app.help_vim_mode);
    app.handle_key_action(KeyAction::ToggleVimMode);
    app.handle_key_action(KeyAction::Help);
    assert!(app.help_vim_mode);
}

#[test]
fn sample_data_backs_the_panes() {
    let app = MailCrossApp::new();
    let email = app.get_current_email().expect("sample email");
    assert_eq!(email.subject, "Test Email");
    let emails = app.get_current_emails();
    assert_eq!(emails.len(), 3);
    assert_eq!(emails[1].subject, "Project update");
    assert!(emails[1].is_read);
}
