//! Vim-style input state: the mode machine (normal, visual, command), the
//! command-line buffer, and the parser for `:` commands, plus the static
//! help tables for both input styles.
use vstd::prelude::*;

use crate::strutil::{has_prefix, str_eq, substring_copy};
use vstd::string::StrSliceExecFns;

verus! {

/// The vim input mode.
#[derive(Debug, Clone, PartialEq, Eq, Structural)]
pub enum VimMode {
    Normal,
    Visual,
    Command,
}

/// Vim-style input state: the current mode, the command-line buffer, the
/// last executed command, and pending count/operator state.
#[derive(Debug)]
pub struct VimState {
    pub mode: VimMode,
    pub command_buffer: String,
    pub last_command: String,
    pub repeat_count: Option<usize>,
    pub pending_action: Option<char>,
}

/// Mathematical view of a [`VimCommand`].
pub ghost enum VimCommandView {
    Quit,
    Save,
    SaveQuit,
    EnableVimMode,
    DisableVimMode,
    Help,
    SetOption(Seq<char>),
}

/// A parsed `:` command.
#[derive(Debug)]
pub enum VimCommand {
    Quit,
    Save,
    SaveQuit,
    EnableVimMode,
    DisableVimMode,
    Help,
    SetOption(String),
}

impl View for VimCommand {
    type V = VimCommandView;

    open spec fn view(&self) -> VimCommandView {
        match self {
            VimCommand::Quit => VimCommandView::Quit,
            VimCommand::Save => VimCommandView::Save,
            VimCommand::SaveQuit => VimCommandView::SaveQuit,
            VimCommand::EnableVimMode => VimCommandView::EnableVimMode,
            VimCommand::DisableVimMode => VimCommandView::DisableVimMode,
            VimCommand::Help => VimCommandView::Help,
            VimCommand::SetOption(s) => VimCommandView::SetOption(s@),
        }
    }
}

/// What a `:` command line parses to: the fixed commands by exact spelling,
/// any other `:set ` line as a generic setting, anything else as nothing.
pub open spec fn vim_command_of(s: Seq<char>) -> Option<VimCommandView> {
    if s == ":q"@ || s == ":quit"@ {
        Some(VimCommandView::Quit)
    } else if s == ":w"@ || s == ":write"@ {
        Some(VimCommandView::Save)
    } else if s == ":wq"@ {
        Some(VimCommandView::SaveQuit)
    } else if s == ":set vim"@ {
        Some(VimCommandView::EnableVimMode)
    } else if s == ":set novim"@ {
        Some(VimCommandView::DisableVimMode)
    } else if s == ":help"@ {
        Some(VimCommandView::Help)
    } else if crate::strutil::has_prefix_seq(s, ":set "@) {
        Some(VimCommandView::SetOption(s.skip(5)))
    } else {
        None
    }
}

impl VimState {
    /// A fresh state: normal mode, everything empty.
    pub fn new() -> (r: Self)
        ensures
            r.mode == VimMode::Normal,
            r.command_buffer@ == Seq::<char>::empty(),
            r.last_command@ == Seq::<char>::empty(),
            r.repeat_count is None,
            r.pending_action is None,
    {
        VimState {
            mode: VimMode::Normal,
            command_buffer: String::new(),
            last_command: String::new(),
            repeat_count: None,
            pending_action: None,
        }
    }

    /// Back to normal mode with the transient state cleared; the last
    /// executed command is kept.
    pub fn reset(&mut self)
        ensures
            final(self).mode == VimMode::Normal,
            final(self).command_buffer@ == Seq::<char>::empty(),
            final(self).repeat_count is None,
            final(self).pending_action is None,
            final(self).last_command == old(self).last_command,
    {
        self.mode = VimMode::Normal;
        self.command_buffer = String::new();
        self.repeat_count = None;
        self.pending_action = None;
    }

    /// Enters command mode with a buffer holding only the `:` prompt.
    pub fn enter_command_mode(&mut self)
        ensures
            final(self).mode == VimMode::Command,
            final(self).command_buffer@ == seq![':'],
            final(self).last_command == old(self).last_command,
            final(self).repeat_count == old(self).repeat_count,
            final(self).pending_action == old(self).pending_action,
    {
        self.mode = VimMode::Command;
        let mut buffer = String::new();
        crate::strutil::push_char(&mut buffer, ':');
        self.command_buffer = buffer;
        proof {
            assert(self.command_buffer@ =~= seq![':']);
        }
    }

    /// Enters visual (multi-select) mode.
    pub fn enter_visual_mode(&mut self)
        ensures
            final(self).mode == VimMode::Visual,
            final(self).command_buffer == old(self).command_buffer,
            final(self).last_command == old(self).last_command,
            final(self).repeat_count == old(self).repeat_count,
            final(self).pending_action == old(self).pending_action,
    {
        self.mode = VimMode::Visual;
    }

    /// Parses one `:` command line; the state itself is unchanged.
    pub fn process_command(&mut self, command: &str) -> (r: Option<VimCommand>)
        ensures
            *final(self) == *old(self),
            match r {
                Some(c) => vim_command_of(command@) == Some(c@),
                None => vim_command_of(command@) is None,
            },
    {
        if str_eq(command, ":q") || str_eq(command, ":quit") {
            Some(VimCommand::Quit)
        } else if str_eq(command, ":w") || str_eq(command, ":write") {
            Some(VimCommand::Save)
        } else if str_eq(command, ":wq") {
            Some(VimCommand::SaveQuit)
        } else if str_eq(command, ":set vim") {
            Some(VimCommand::EnableVimMode)
        } else if str_eq(command, ":set novim") {
            Some(VimCommand::DisableVimMode)
        } else if str_eq(command, ":help") {
            Some(VimCommand::Help)
        } else if has_prefix(command, ":set ") {
            proof {
                reveal_strlit(":set ");
            }
            let len = command.unicode_len();
            let setting = substring_copy(command, 5, len);
            Some(VimCommand::SetOption(setting))
        } else {
            proof {
                reveal_strlit(":set ");
            }
            None
        }
    }

    /// The mode name for the status display.
    pub fn get_mode_indicator(&self) -> (r: &'static str)
        ensures
            r@ == (match self.mode {
                VimMode::Normal => "NORMAL"@,
                VimMode::Visual => "VISUAL"@,
                VimMode::Command => "COMMAND"@,
            }),
    {
        match self.mode {
            VimMode::Normal => "NORMAL",
            VimMode::Visual => "VISUAL",
            VimMode::Command => "COMMAND",
        }
    }
}

/// The static key-binding reference tables.
pub struct VimKeymap;

/// The vim-mode help rows: shortcut and description.
pub open spec fn vim_help_rows() -> Seq<(Seq<char>, Seq<char>)> {
    seq![
        ("j/k"@, "Down/Up"@),
        ("h/l"@, "Left panel/Right panel"@),
        ("gg"@, "First email"@),
        ("G"@, "Last email"@),
        ("c"@, "Compose"@),
        ("r"@, "Reply"@),
        ("f"@, "Forward"@),
        ("dd"@, "Delete"@),
        ("/"@, "Search"@),
        ("n"@, "Next search result"@),
        ("N"@, "Previous search result"@),
        ("Space"@, "Select"@),
        ("v"@, "Visual mode (multi-select)"@),
        ("1/2/3"@, "Switch accounts"@),
        (":"@, "Command mode"@),
        (":q"@, "Quit"@),
        (":set novim"@, "Disable vim mode"@),
        ("Ctrl+U"@, "Refresh folder"@),
        ("Esc"@, "Cancel/Back"@),
    ]
}

/// The traditional-mode help rows: shortcut and description.
pub open spec fn traditional_help_rows() -> Seq<(Seq<char>, Seq<char>)> {
    seq![
        ("\u{2191}\u{2193}"@, "Navigate emails/menus"@),
        ("\u{2190}\u{2192}"@, "Navigate between panels"@),
        ("Tab/Shift+Tab"@, "Navigate between panels"@),
        ("Home/End"@, "First/Last email"@),
        ("Page Up/Down"@, "First/Last email"@),
        ("Ctrl+N"@, "New email (compose)"@),
        ("Ctrl+R"@, "Reply"@),
        ("Ctrl+L"@, "Forward"@),
        ("Ctrl+D/Delete"@, "Delete email"@),
        ("Ctrl+F"@, "Search current email"@),
        ("Ctrl+Shift+F"@, "Search all emails"@),
        ("Ctrl+G/Ctrl+Shift+G"@, "Next/Previous result"@),
        ("Space"@, "Select/Multi-select"@),
        ("Ctrl+A"@, "Select all"@),
        ("Enter"@, "Open email/Confirm"@),
        ("Ctrl+1/2/3"@, "Switch accounts"@),
        ("Ctrl+Shift+R"@, "Refresh"@),
        ("Alt+S"@, "Settings"@),
        ("Ctrl+H"@, "Help"@),
        ("Esc/Ctrl+W"@, "Back/Cancel"@),
    ]
}

impl VimKeymap {
    /// The vim-mode shortcut reference.
    pub fn get_help_text() -> (r: Vec<(&'static str, &'static str)>)
        ensures
            r@.map_values(|p: (&'static str, &'static str)| (p.0@, p.1@)) == vim_help_rows(),
    {
        let mut r: Vec<(&'static str, &'static str)> = Vec::new();
        r.push(("j/k", "Down/Up"));
        r.push(("h/l", "Left panel/Right panel"));
        r.push(("gg", "First email"));
        r.push(("G", "Last email"));
        r.push(("c", "Compose"));
        r.push(("r", "Reply"));
        r.push(("f", "Forward"));
        r.push(("dd", "Delete"));
        r.push(("/", "Search"));
        r.push(("n", "Next search result"));
        r.push(("N", "Previous search result"));
        r.push(("Space", "Select"));
        r.push(("v", "Visual mode (multi-select)"));
        r.push(("1/2/3", "Switch accounts"));
        r.push((":", "Command mode"));
        r.push((":q", "Quit"));
        r.push((":set novim", "Disable vim mode"));
        r.push(("Ctrl+U", "Refresh folder"));
        r.push(("Esc", "Cancel/Back"));
        proof {
            assert(r@.map_values(|p: (&'static str, &'static str)| (p.0@, p.1@))
                =~= vim_help_rows());
        }
        r
    }

    /// The traditional-mode shortcut reference.
    pub fn get_traditional_help_text() -> (r: Vec<(&'static str, &'static str)>)
        ensures
            r@.map_values(|p: (&'static str, &'static str)| (p.0@, p.1@))
                == traditional_help_rows(),
    {
        let mut r: Vec<(&'static str, &'static str)> = Vec::new();
        r.push(("\u{2191}\u{2193}", "Navigate emails/menus"));
        r.push(("\u{2190}\u{2192}", "Navigate between panels"));
        r.push(("Tab/Shift+Tab", "Navigate between panels"));
        r.push(("Home/End", "First/Last email"));
        r.push(("Page Up/Down", "First/Last email"));
        r.push(("Ctrl+N", "New email (compose)"));
        r.push(("Ctrl+R", "Reply"));
        r.push(("Ctrl+L", "Forward"));
        r.push(("Ctrl+D/Delete", "Delete email"));
        r.push(("Ctrl+F", "Search current email"));
        r.push(("Ctrl+Shift+F", "Search all emails"));
        r.push(("Ctrl+G/Ctrl+Shift+G", "Next/Previous result"));
        r.push(("Space", "Select/Multi-select"));
        r.push(("Ctrl+A", "Select all"));
        r.push(("Enter", "Open email/Confirm"));
        r.push(("Ctrl+1/2/3", "Switch accounts"));
        r.push(("Ctrl+Shift+R", "Refresh"));
        r.push(("Alt+S", "Settings"));
        r.push(("Ctrl+H", "Help"));
        r.push(("Esc/Ctrl+W", "Back/Cancel"));
        proof {
            assert(r@.map_values(|p: (&'static str, &'static str)| (p.0@, p.1@))
                =~= traditional_help_rows());
        }
        r
    }
}

} // verus!
