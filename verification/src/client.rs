//! The client's top-level state: the selected account, folder, and email,
//! the input handlers, the orchestrator, the dialogs, and the status line.
//! Every intent the keyboard layer produces is applied here; rendering and
//! event-source plumbing stay outside the library.
use vstd::prelude::*;

use crate::composer::{forward_body, forward_subject, reply_body, reply_subject, ComposerAction, ComposerMode, ComposerWindow};
use crate::confirm::DeleteConfirmation;
use crate::keyboard::{KeyAction, KeyboardHandler};
use crate::manager::{
    keep_emails, reg_lookup, with_emails, AccountEvent, AccountEventView, AccountManager,
};
use crate::search::SearchState;
use crate::settings::{SettingsAction, SettingsWindow};
use crate::strutil::{dec_of, dec_string};
use crate::types::{Email, EmailView};
use crate::vim::{VimCommand, VimMode, VimState};

verus! {

/// The sample message shown while no mailbox has been fetched.
pub open spec fn sample_email() -> EmailView {
    EmailView {
        id: 1,
        sender: "sender@example.com"@,
        recipient: "recipient@example.com"@,
        subject: "Test Email"@,
        date: "2024-01-01"@,
        body: "This is a test email body."@,
        is_read: false,
        is_selected: false,
    }
}

/// The highest selectable sample-email index while no real mailbox backs
/// the list.
pub open spec fn sample_list_limit() -> int {
    10
}

/// The client's state between render ticks.
pub struct MailCrossApp {
    pub current_account: usize,
    pub selected_folder: usize,
    pub selected_email: usize,
    pub keyboard_handler: KeyboardHandler,
    pub vim_state: VimState,
    pub account_manager: AccountManager,
    pub status_message: String,
    pub show_help: bool,
    pub help_vim_mode: bool,
    pub composer: ComposerWindow,
    pub delete_confirmation: Option<DeleteConfirmation>,
    pub search_state: SearchState,
    pub settings: SettingsWindow,
}

impl MailCrossApp {
    /// The orchestrator's internal shape is intact.
    pub open spec fn wf(&self) -> bool {
        self.account_manager.wf()
    }

    /// A fresh client: three sample accounts, traditional input, nothing
    /// selected, ready.
    pub fn new() -> (r: Self)
        ensures
            r.wf(),
            r.current_account == 0,
            r.selected_folder == 0,
            r.selected_email == 0,
            r.account_manager@.accounts.len() == 3,
            r.account_manager@.accounts[0].email == "user@gmail.com"@,
            r.account_manager@.accounts[1].email == "user@work.com"@,
            r.account_manager@.accounts[2].email == "user@personal.com"@,
            r.status_message@ == "Ready"@,
            !r.show_help,
            !r.help_vim_mode,
            !r.keyboard_handler.vim_mode,
            r.vim_state.mode == VimMode::Normal,
            !r.composer.visible,
            r.delete_confirmation is None,
            !r.search_state.active,
    {
        proof {
            reveal_strlit("user@gmail.com");
            reveal_strlit("user@work.com");
            reveal_strlit("user@personal.com");
            assert("user@gmail.com"@.len() == 14);
            assert("user@work.com"@.len() == 13);
            assert("user@personal.com"@.len() == 17);
        }
        let mut account_manager = AccountManager::new();
        let first = crate::types::Account::new("Gmail", "user@gmail.com");
        let ghost gv = first@;
        account_manager.add_account(first);
        proof {
            assert(account_manager@.accounts =~= seq![gv]);
            assert(crate::manager::reg_lookup(seq![gv], "user@work.com"@) is None) by {
                assert(seq![gv].drop_first() =~= Seq::<crate::types::AccountView>::empty());
            }
        }
        let second = crate::types::Account::new("Work", "user@work.com");
        let ghost wv = second@;
        account_manager.add_account(second);
        proof {
            assert(account_manager@.accounts =~= seq![gv, wv]);
            assert(crate::manager::reg_lookup(seq![gv, wv], "user@personal.com"@) is None) by {
                assert(seq![gv, wv].drop_first() =~= seq![wv]);
                assert(seq![wv].drop_first() =~= Seq::<crate::types::AccountView>::empty());
            }
        }
        let third = crate::types::Account::new("Personal", "user@personal.com");
        let ghost pv = third@;
        account_manager.add_account(third);
        proof {
            assert(account_manager@.accounts =~= seq![gv, wv, pv]);
        }
        MailCrossApp {
            current_account: 0,
            selected_folder: 0,
            selected_email: 0,
            keyboard_handler: KeyboardHandler::new(),
            vim_state: VimState::new(),
            account_manager,
            status_message: "Ready".to_owned(),
            show_help: false,
            help_vim_mode: false,
            composer: ComposerWindow::new(),
            delete_confirmation: None,
            search_state: SearchState::new(),
            settings: SettingsWindow::new(),
        }
    }

    /// The sample message standing in for the open email.
    pub fn get_current_email(&self) -> (r: Option<Email>)
        ensures
            r matches Some(e) && e@ == sample_email(),
    {
        let mut email = Email::new(
            1,
            "sender@example.com",
            "Test Email",
            "2024-01-01",
            "This is a test email body.",
        );
        email.recipient = "recipient@example.com".to_owned();
        Some(email)
    }

    /// The sample list standing in for the open folder.
    pub fn get_current_emails(&self) -> (r: Vec<Email>)
        ensures
            r@.len() == 3,
            r@[0]@.subject == "Meeting tomorrow"@,
            r@[1]@.subject == "Project update"@,
            r@[2]@.subject == "Weekly Tech News"@,
            forall|k: int| 0 <= k < 3 ==> (#[trigger] r@[k])@.recipient == "me@example.com"@,
    {
        let mut list: Vec<Email> = Vec::new();
        let mut first = Email::new(
            1,
            "alice@example.com",
            "Meeting tomorrow",
            "2024-01-15",
            "Don't forget about our meeting tomorrow at 10am.",
        );
        first.recipient = "me@example.com".to_owned();
        let mut second = Email::new(
            2,
            "bob@company.com",
            "Project update",
            "2024-01-14",
            "The project is progressing well. Here's the latest update.",
        );
        second.recipient = "me@example.com".to_owned();
        second.is_read = true;
        let mut third = Email::new(
            3,
            "newsletter@tech.com",
            "Weekly Tech News",
            "2024-01-13",
            "This week in technology: AI advances, new frameworks, and more.",
        );
        third.recipient = "me@example.com".to_owned();
        list.push(first);
        list.push(second);
        list.push(third);
        list
    }

    /// Updates the status line from a batch of drained events, one message
    /// per event; the last event's message remains visible.
    pub fn process_events(&mut self, events: Vec<AccountEvent>)
        requires
            old(self).wf(),
        ensures
            final(self).wf(),
            events@.len() == 0 ==> *final(self) == *old(self),
            events@.len() > 0 ==> final(self).status_message@ == event_status(
                events@[events@.len() - 1]@,
            ),
    {
        let n = events.len();
        let mut i: usize = 0;
        while i < n
            invariant
                i <= n,
                n == events@.len(),
                self.wf(),
                self.account_manager == old(self).account_manager,
                i == 0 ==> *self == *old(self),
                i > 0 ==> self.status_message@ == event_status(events@[i - 1]@),
                self.current_account == old(self).current_account,
            decreases n - i,
        {
            let message = describe_event(&events[i]);
            self.status_message = message;
            i = i + 1;
        }
    }

    /// Applies one keyboard intent: navigation, dialogs, search, account
    /// switching, and the matching status line.
    pub fn handle_key_action(&mut self, action: KeyAction)
        requires
            old(self).wf(),
        ensures
            final(self).wf(),
            match action {
                KeyAction::NextItem => final(self).selected_email == (
                if old(self).selected_email >= sample_list_limit() {
                    sample_list_limit()
                } else {
                    old(self).selected_email + 1
                }) && final(self).status_message@ == "Email "@ + dec_of(
                    (final(self).selected_email + 1) as nat,
                ),
                KeyAction::PrevItem => final(self).selected_email == (
                if old(self).selected_email == 0 {
                    0int
                } else {
                    old(self).selected_email - 1
                }) && final(self).status_message@ == "Email "@ + dec_of(
                    (final(self).selected_email + 1) as nat,
                ),
                KeyAction::FirstItem => final(self).selected_email == 0 && final(self).status_message@ == "First email"@,
                KeyAction::LastItem => final(self).selected_email == sample_list_limit() && final(self).status_message@ == "Last email"@,
                KeyAction::NextPanel => final(self).status_message@ == "Next panel"@,
                KeyAction::PrevPanel => final(self).status_message@ == "Previous panel"@,
                KeyAction::Compose => final(self).composer.visible && final(self).composer.mode
                    is Compose && final(self).composer.from_account == old(self).current_account
                    && final(self).status_message@ == "Compose new email"@,
                KeyAction::Reply => final(self).composer.visible && final(self).composer.to@
                    == sample_email().sender && final(self).composer.subject@ == reply_subject(
                    sample_email().subject,
                ) && final(self).composer.body@ == reply_body(
                    sample_email().date,
                    sample_email().sender,
                    sample_email().body,
                ) && final(self).status_message@ == "Reply to email"@,
                KeyAction::Forward => final(self).composer.visible && final(self).composer.subject@ == forward_subject(sample_email().subject) && final(self).status_message@ == "Forward email"@,
                KeyAction::Delete => final(self).delete_confirmation matches Some(c)
                    && c.email_id == sample_email().id && c.email_subject@
                    == sample_email().subject && final(self).status_message@
                    == "Confirm deletion"@,
                KeyAction::SearchCurrentEmail => if !old(self).search_state.active {
                    final(self).search_state.active && final(self).keyboard_handler.search_mode
                        && final(self).status_message@ == "Search current email (Ctrl+F)"@
                } else {
                    !final(self).search_state.active && !final(self).keyboard_handler.search_mode
                        && final(self).status_message@ == "Search cancelled"@
                },
                KeyAction::SearchAllEmails => if !old(self).search_state.active {
                    final(self).search_state.active && final(self).keyboard_handler.search_mode
                        && final(self).status_message@ == "Search all emails (Ctrl+Shift+F)"@
                } else {
                    !final(self).search_state.active && !final(self).keyboard_handler.search_mode
                        && final(self).status_message@ == "Search cancelled"@
                },
                KeyAction::SearchNext => if old(self).search_state.active && old(self).search_state.results@.len() > 0 {
                    final(self).status_message@ == "Search result "@ + dec_of(
                        (final(self).search_state.selected_result + 1) as nat,
                    ) + "/"@ + dec_of(final(self).search_state.results@.len())
                } else {
                    final(self).status_message@ == "No search results"@
                },
                KeyAction::SearchPrev => if old(self).search_state.active && old(self).search_state.results@.len() > 0 {
                    final(self).status_message@ == "Search result "@ + dec_of(
                        (final(self).search_state.selected_result + 1) as nat,
                    ) + "/"@ + dec_of(final(self).search_state.results@.len())
                } else {
                    final(self).status_message@ == "No search results"@
                },
                KeyAction::RefreshFolder => final(self).status_message@
                    == "Refreshing folder..."@,
                KeyAction::Settings => final(self).settings.visible && final(self).settings.vim_mode == old(self).keyboard_handler.vim_mode && final(self).status_message@ == "Opening settings"@,
                KeyAction::Help => final(self).show_help && final(self).help_vim_mode == old(self).keyboard_handler.vim_mode,
                KeyAction::ToggleVimMode => final(self).keyboard_handler.vim_mode == !old(self).keyboard_handler.vim_mode && final(self).vim_state.mode == VimMode::Normal
                    && final(self).status_message@ == (
                if !old(self).keyboard_handler.vim_mode {
                    "Switched to Vim mode"@
                } else {
                    "Switched to Normal mode"@
                }),
                KeyAction::Cancel => !final(self).show_help && !final(self).search_state.active
                    && !final(self).keyboard_handler.search_mode && final(self).vim_state.mode
                    == VimMode::Normal && final(self).status_message@ == "Cancelled"@,
                KeyAction::Confirm => final(self).status_message@ == "Confirmed"@,
                KeyAction::EnterCommandMode => if old(self).keyboard_handler.vim_mode {
                    final(self).vim_state.mode == VimMode::Command && final(self).status_message@ == "Command mode"@
                } else {
                    *final(self) == *old(self)
                },
                KeyAction::SwitchAccount(idx) => if idx < old(self).account_manager@.accounts.len() {
                    final(self).current_account == idx && final(self).status_message@
                        == "Switched to account "@ + dec_of((idx + 1) as nat)
                } else {
                    final(self).status_message@ == "Action: SwitchAccount("@ + dec_of(
                        idx as nat,
                    ) + ")"@
                },
                KeyAction::MarkRead => final(self).status_message@ == "Action: MarkRead"@,
                KeyAction::MarkUnread => final(self).status_message@ == "Action: MarkUnread"@,
                KeyAction::ToggleRead => final(self).status_message@ == "Action: ToggleRead"@,
                KeyAction::Select => final(self).status_message@ == "Action: Select"@,
                KeyAction::SelectAll => final(self).status_message@ == "Action: SelectAll"@,
            },
    {
        let accounts_len = self.account_manager.get_accounts().len();
        match action {
            KeyAction::SwitchAccount(idx) => {
                if idx < accounts_len {
                    self.current_account = idx;
                    let mut message = "Switched to account ".to_owned();
                    message.append(dec_string(idx + 1).as_str());
                    self.status_message = message;
                } else {
                    let mut message = "Action: SwitchAccount(".to_owned();
                    message.append(dec_string(idx).as_str());
                    message.append(")");
                    self.status_message = message;
                }
            },
            KeyAction::NextItem => {
                self.selected_email = if self.selected_email >= 10 {
                    10
                } else {
                    self.selected_email + 1
                };
                let mut message = "Email ".to_owned();
                message.append(dec_string(self.selected_email + 1).as_str());
                self.status_message = message;
            },
            KeyAction::PrevItem => {
                self.selected_email = if self.selected_email == 0 {
                    0
                } else {
                    self.selected_email - 1
                };
                let mut message = "Email ".to_owned();
                message.append(dec_string(self.selected_email + 1).as_str());
                self.status_message = message;
            },
            KeyAction::NextPanel => {
                self.status_message = "Next panel".to_owned();
            },
            KeyAction::PrevPanel => {
                self.status_message = "Previous panel".to_owned();
            },
            KeyAction::FirstItem => {
                self.selected_email = 0;
                self.status_message = "First email".to_owned();
            },
            KeyAction::LastItem => {
                self.selected_email = 10;
                self.status_message = "Last email".to_owned();
            },
            KeyAction::Compose => {
                self.composer.show_compose(self.current_account);
                self.status_message = "Compose new email".to_owned();
            },
            KeyAction::Reply => {
                match self.get_current_email() {
                    Some(email) => {
                        self.composer.show_reply(&email, self.current_account);
                        self.status_message = "Reply to email".to_owned();
                    },
                    None => {},
                }
            },
            KeyAction::Forward => {
                match self.get_current_email() {
                    Some(email) => {
                        self.composer.show_forward(&email, self.current_account);
                        self.status_message = "Forward email".to_owned();
                    },
                    None => {},
                }
            },
            KeyAction::Delete => {
                match self.get_current_email() {
                    Some(email) => {
                        self.show_delete_confirmation(email.id);
                    },
                    None => {
                        self.status_message = "No email selected to delete".to_owned();
                    },
                }
            },
            KeyAction::SearchCurrentEmail => {
                if !self.search_state.active {
                    self.search_state.start_search_current_email();
                    self.keyboard_handler.set_search_mode(true);
                    self.status_message = "Search current email (Ctrl+F)".to_owned();
                } else {
                    self.search_state.cancel_search();
                    self.keyboard_handler.set_search_mode(false);
                    self.status_message = "Search cancelled".to_owned();
                }
            },
            KeyAction::SearchAllEmails => {
                if !self.search_state.active {
                    self.search_state.start_search_all_emails();
                    self.keyboard_handler.set_search_mode(true);
                    self.status_message = "Search all emails (Ctrl+Shift+F)".to_owned();
                } else {
                    self.search_state.cancel_search();
                    self.keyboard_handler.set_search_mode(false);
                    self.status_message = "Search cancelled".to_owned();
                }
            },
            KeyAction::SearchNext => {
                if self.search_state.active && self.search_state.has_results() {
                    self.search_state.next_result();
                    self.status_message = self.search_position_message();
                } else {
                    self.status_message = "No search results".to_owned();
                }
            },
            KeyAction::SearchPrev => {
                if self.search_state.active && self.search_state.has_results() {
                    self.search_state.prev_result();
                    self.status_message = self.search_position_message();
                } else {
                    self.status_message = "No search results".to_owned();
                }
            },
            KeyAction::RefreshFolder => {
                self.status_message = "Refreshing folder...".to_owned();
            },
            KeyAction::Settings => {
                self.settings.update_vim_mode(self.keyboard_handler.vim_mode);
                self.settings.show();
                self.status_message = "Opening settings".to_owned();
            },
            KeyAction::Help => {
                self.show_help = true;
                self.help_vim_mode = self.keyboard_handler.vim_mode;
            },
            KeyAction::ToggleVimMode => {
                self.keyboard_handler.toggle_vim_mode();
                self.vim_state.reset();
                if self.keyboard_handler.vim_mode {
                    self.status_message = "Switched to Vim mode".to_owned();
                } else {
                    self.status_message = "Switched to Normal mode".to_owned();
                }
            },
            KeyAction::Cancel => {
                self.show_help = false;
                if self.search_state.active {
                    self.search_state.cancel_search();
                }
                self.keyboard_handler.set_search_mode(false);
                self.vim_state.reset();
                self.status_message = "Cancelled".to_owned();
            },
            KeyAction::Confirm => {
                self.status_message = "Confirmed".to_owned();
            },
            KeyAction::EnterCommandMode => {
                if self.keyboard_handler.vim_mode {
                    self.vim_state.enter_command_mode();
                    self.status_message = "Command mode".to_owned();
                }
            },
            KeyAction::MarkRead => {
                self.status_message = "Action: MarkRead".to_owned();
            },
            KeyAction::MarkUnread => {
                self.status_message = "Action: MarkUnread".to_owned();
            },
            KeyAction::ToggleRead => {
                self.status_message = "Action: ToggleRead".to_owned();
            },
            KeyAction::Select => {
                self.status_message = "Action: Select".to_owned();
            },
            KeyAction::SelectAll => {
                self.status_message = "Action: SelectAll".to_owned();
            },
        }
    }

    /// The "result m/n" status line for the current search position.
    fn search_position_message(&self) -> (r: String)
        requires
            self.search_state.selected_result < self.search_state.results@.len(),
        ensures
            r@ == "Search result "@ + dec_of((self.search_state.selected_result + 1) as nat)
                + "/"@ + dec_of(self.search_state.results@.len()),
    {
        let count = self.search_state.result_count();
        let mut message = "Search result ".to_owned();
        message.append(dec_string(self.search_state.selected_result + 1).as_str());
        message.append("/");
        message.append(dec_string(count).as_str());
        message
    }

    /// Stages a delete of the open email behind a confirmation prompt.
    pub fn show_delete_confirmation(&mut self, email_id: usize)
        requires
            old(self).wf(),
        ensures
            final(self).wf(),
            final(self).delete_confirmation matches Some(c) && c.email_id == email_id
                && c.email_subject@ == sample_email().subject,
            final(self).status_message@ == "Confirm deletion"@,
    {
        match self.get_current_email() {
            Some(email) => {
                self.delete_confirmation = Some(
                    DeleteConfirmation::new(email_id, email.subject.as_str()),
                );
                self.status_message = "Confirm deletion".to_owned();
            },
            None => {},
        }
    }

    /// Resolves the confirmation prompt: on yes, the email is deleted
    /// locally through the orchestrator and its events are returned for the
    /// queue; on no, nothing is deleted. Either way the prompt closes.
    pub fn handle_delete_confirmation(&mut self, confirmed: bool) -> (events: Vec<AccountEvent>)
        requires
            old(self).wf(),
        ensures
            final(self).wf(),
            final(self).delete_confirmation is None,
            match old(self).delete_confirmation {
                None => *final(self) == *old(self) && events@.len() == 0,
                Some(c) => if confirmed {
                    &&& final(self).status_message@ == "Deleting email: "@ + c.email_subject@
                    &&& if old(self).current_account < old(self).account_manager@.accounts.len() {
                        let acc = old(self).account_manager@.accounts[
                            old(self).current_account as int
                        ];
                        &&& reg_lookup(final(self).account_manager@.accounts, acc.email) == Some(
                            with_emails(acc, keep_emails(acc.emails, c.email_id as int)),
                        )
                        &&& forall|e: Seq<char>|
                            e != acc.email ==> #[trigger] reg_lookup(
                                final(self).account_manager@.accounts,
                                e,
                            ) == reg_lookup(old(self).account_manager@.accounts, e)
                        &&& events@.map_values(|ev: AccountEvent| ev@) == seq![
                            AccountEventView::EmailDeleted(acc.email, c.email_id as int),
                        ]
                    } else {
                        final(self).account_manager@ == old(self).account_manager@ && events@.len()
                            == 0
                    }
                    &&& final(self).account_manager@.cache == old(self).account_manager@.cache
                    &&& final(self).account_manager@.creds == old(self).account_manager@.creds
                    &&& final(self).account_manager@.sessions == old(
                        self,
                    ).account_manager@.sessions
                } else {
                    &&& events@.len() == 0
                    &&& final(self).account_manager == old(self).account_manager
                    &&& final(self).status_message@ == "Deletion cancelled"@
                },
            },
    {
        let mut events: Vec<AccountEvent> = Vec::new();
        let confirmation = match &self.delete_confirmation {
            Some(c) => Some(c.clone()),
            None => None,
        };
        match confirmation {
            Some(confirmation) => {
                if confirmed {
                    events = self.account_manager.delete_email_by_index(
                        self.current_account,
                        confirmation.email_id,
                    );
                    let mut message = "Deleting email: ".to_owned();
                    message.append(confirmation.email_subject.as_str());
                    self.status_message = message;
                } else {
                    self.status_message = "Deletion cancelled".to_owned();
                }
            },
            None => {},
        }
        self.delete_confirmation = None;
        events
    }

    /// Applies one parsed `:` command.
    pub fn handle_vim_command(&mut self, command: VimCommand)
        requires
            old(self).wf(),
        ensures
            final(self).wf(),
            match command {
                VimCommand::Quit => final(self).status_message@
                    == "Quit command (would close app)"@,
                VimCommand::Save => final(self).status_message@ == "Save command"@,
                VimCommand::SaveQuit => final(self).status_message@ == "Save and quit"@,
                VimCommand::EnableVimMode => final(self).keyboard_handler.vim_mode && final(self).status_message@ == "Vim mode enabled"@,
                VimCommand::DisableVimMode => !final(self).keyboard_handler.vim_mode && final(self).vim_state.mode == VimMode::Normal && final(self).status_message@
                    == "Vim mode disabled"@,
                VimCommand::Help => final(self).show_help && final(self).help_vim_mode,
                VimCommand::SetOption(setting) => final(self).status_message@ == "Set: "@
                    + setting@,
            },
    {
        match command {
            VimCommand::Quit => {
                self.status_message = "Quit command (would close app)".to_owned();
            },
            VimCommand::Save => {
                self.status_message = "Save command".to_owned();
            },
            VimCommand::SaveQuit => {
                self.status_message = "Save and quit".to_owned();
            },
            VimCommand::EnableVimMode => {
                self.keyboard_handler.vim_mode = true;
                self.status_message = "Vim mode enabled".to_owned();
            },
            VimCommand::DisableVimMode => {
                self.keyboard_handler.vim_mode = false;
                self.vim_state.reset();
                self.status_message = "Vim mode disabled".to_owned();
            },
            VimCommand::Help => {
                self.show_help = true;
                self.help_vim_mode = true;
            },
            VimCommand::SetOption(setting) => {
                let mut message = "Set: ".to_owned();
                message.append(setting.as_str());
                self.status_message = message;
            },
        }
    }

    /// Applies the composer dialog's request; sending and saving are
    /// acknowledged in the status line only, since outbound mail is outside
    /// this scope.
    pub fn handle_composer_action(&mut self, action: ComposerAction)
        requires
            old(self).wf(),
            action == ComposerAction::Send ==> old(self).composer.from_account < old(self).account_manager@.accounts.len(),
        ensures
            final(self).wf(),
            !final(self).composer.visible,
            match action {
                ComposerAction::Send => final(self).status_message@ == "Sending email from "@
                    + old(self).account_manager@.accounts[
                    old(self).composer.from_account as int
                ].email,
                ComposerAction::Save => final(self).status_message@ == "Email saved as draft"@,
                ComposerAction::Cancel => final(self).status_message@
                    == "Email composition cancelled"@,
            },
    {
        match action {
            ComposerAction::Send => {
                let accounts = self.account_manager.get_accounts();
                let account_email = accounts[self.composer.from_account].email.clone();
                let mut message = "Sending email from ".to_owned();
                message.append(account_email.as_str());
                self.status_message = message;
                self.composer.visible = false;
            },
            ComposerAction::Save => {
                self.status_message = "Email saved as draft".to_owned();
                self.composer.visible = false;
            },
            ComposerAction::Cancel => {
                self.status_message = "Email composition cancelled".to_owned();
                self.composer.visible = false;
            },
        }
    }

    /// Applies the settings dialog's request.
    pub fn handle_settings_action(&mut self, action: SettingsAction)
        requires
            old(self).wf(),
        ensures
            final(self).wf(),
            match action {
                SettingsAction::Apply => final(self).keyboard_handler.vim_mode == old(self).settings.vim_mode && !final(self).settings.visible && final(self).status_message@ == "Settings applied"@,
                SettingsAction::Cancel => final(self).settings.vim_mode == old(self).keyboard_handler.vim_mode && !final(self).settings.visible && final(self).status_message@ == "Settings cancelled"@,
                SettingsAction::Reset => final(self).settings
                    == (crate::settings::SettingsWindow {
                    visible: true,
                    ..crate::settings::default_settings()
                }) && final(self).status_message@ == "Settings reset to defaults"@,
                SettingsAction::VimModeToggled(enabled) => final(self).keyboard_handler.vim_mode == enabled && final(self).status_message@ == (
                if enabled {
                    "Switched to Vim mode"@
                } else {
                    "Switched to Traditional mode"@
                }),
                SettingsAction::ThemeChanged(theme) => final(self).status_message@
                    == "Theme changed to "@ + (match theme {
                    crate::settings::AppTheme::Light => "Light"@,
                    crate::settings::AppTheme::Dark => "Dark"@,
                    crate::settings::AppTheme::Auto => "Auto"@,
                }),
            },
    {
        match action {
            SettingsAction::Apply => {
                self.keyboard_handler.vim_mode = self.settings.get_vim_mode();
                if !self.settings.get_vim_mode() {
                    self.vim_state.reset();
                }
                self.settings.close();
                self.status_message = "Settings applied".to_owned();
            },
            SettingsAction::Cancel => {
                self.settings.update_vim_mode(self.keyboard_handler.vim_mode);
                self.settings.close();
                self.status_message = "Settings cancelled".to_owned();
            },
            SettingsAction::Reset => {
                self.settings.reset_to_defaults();
                self.status_message = "Settings reset to defaults".to_owned();
            },
            SettingsAction::VimModeToggled(enabled) => {
                self.keyboard_handler.vim_mode = enabled;
                if !enabled {
                    self.vim_state.reset();
                }
                if enabled {
                    self.status_message = "Switched to Vim mode".to_owned();
                } else {
                    self.status_message = "Switched to Traditional mode".to_owned();
                }
            },
            SettingsAction::ThemeChanged(theme) => {
                let mut message = "Theme changed to ".to_owned();
                message.append(theme.display_name());
                self.status_message = message;
            },
        }
    }

    /// All configured accounts, in insertion order.
    pub fn get_accounts(&self) -> (r: Vec<&crate::types::Account>)
        ensures
            r@.len() == self.account_manager@.accounts.len(),
    {
        self.account_manager.get_accounts()
    }
}

/// The status line shown for one drained event.
pub open spec fn event_status(e: crate::manager::AccountEventView) -> Seq<char> {
    match e {
        crate::manager::AccountEventView::Connected(a) => "Connected to "@ + a,
        crate::manager::AccountEventView::Disconnected(a) => "Disconnected from "@ + a,
        crate::manager::AccountEventView::ConnectionFailed(a, reason) => "Failed to connect to "@
            + a + ": "@ + reason,
        crate::manager::AccountEventView::FoldersUpdated(a, _) => "Folders updated for "@ + a,
        crate::manager::AccountEventView::EmailsUpdated(a, folder, _) => "Emails updated for "@
            + a + "/"@ + folder,
        crate::manager::AccountEventView::EmailDeleted(a, id) => "Deleted email "@ + dec_of(
            id as nat,
        ) + " from "@ + a,
    }
}

/// Renders the status line for one event.
fn describe_event(event: &AccountEvent) -> (r: String)
    ensures
        r@ == event_status(event@),
{
    match event {
        AccountEvent::Connected(a) => {
            let mut m = "Connected to ".to_owned();
            m.append(a.as_str());
            m
        },
        AccountEvent::Disconnected(a) => {
            let mut m = "Disconnected from ".to_owned();
            m.append(a.as_str());
            m
        },
        AccountEvent::ConnectionFailed(a, reason) => {
            let mut m = "Failed to connect to ".to_owned();
            m.append(a.as_str());
            m.append(": ");
            m.append(reason.as_str());
            proof {
                assert(m@ =~= "Failed to connect to "@ + a@ + ": "@ + reason@);
            }
            m
        },
        AccountEvent::FoldersUpdated(a, _) => {
            let mut m = "Folders updated for ".to_owned();
            m.append(a.as_str());
            m
        },
        AccountEvent::EmailsUpdated(a, folder, _) => {
            let mut m = "Emails updated for ".to_owned();
            m.append(a.as_str());
            m.append("/");
            m.append(folder.as_str());
            proof {
                assert(m@ =~= "Emails updated for "@ + a@ + "/"@ + folder@);
            }
            m
        },
        AccountEvent::EmailDeleted(a, id) => {
            let mut m = "Deleted email ".to_owned();
            m.append(dec_string(*id).as_str());
            m.append(" from ");
            m.append(a.as_str());
            proof {
                assert(m@ =~= "Deleted email "@ + dec_of((*id) as nat) + " from "@ + a@);
            }
            m
        },
    }
}

} // verus!
