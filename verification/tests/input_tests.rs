use mailcross::keyboard::{Key, KeyAction, KeyboardHandler, Modifiers};
use mailcross::vim::{VimCommand, VimKeymap, VimMode, VimState};

fn plain() -> Modifiers {
    Modifiers { ctrl: false, shift: false, alt: false }
}

fn ctrl() -> Modifiers {
    Modifiers { ctrl: true, shift: false, alt: false }
}

fn ctrl_shift() -> Modifiers {
    Modifiers { ctrl: true, shift: true, alt: false }
}

#[test]
fn traditional_bindings() {
    let mut kb = KeyboardHandler::new();
    assert!(!kb.vim_mode);
    assert_eq!(kb.process_key(Key::ArrowDown, plain(), 0), Some(KeyAction::NextItem));
    assert_eq!(kb.process_key(Key::Tab, plain(), 0), Some(KeyAction::NextPanel));
    let shift = Modifiers { ctrl: false, shift: true, alt: false };
    assert_eq!(kb.process_key(Key::Tab, shift, 0), Some(KeyAction::PrevPanel));
    assert_eq!(kb.process_key(Key::N, ctrl(), 0), Some(KeyAction::Compose));
    assert_eq!(kb.process_key(Key::R, ctrl(), 0), Some(KeyAction::Reply));
    assert_eq!(kb.process_key(Key::R, ctrl_shift(), 0), Some(KeyAction::RefreshFolder));
    assert_eq!(kb.process_key(Key::F, ctrl(), 0), Some(KeyAction::SearchCurrentEmail));
    assert_eq!(kb.process_key(Key::F, ctrl_shift(), 0), Some(KeyAction::SearchAllEmails));
    assert_eq!(kb.process_key(Key::Num2, ctrl(), 0), Some(KeyAction::SwitchAccount(1)));
    let alt = Modifiers { ctrl: false, shift: false, alt: true };
    assert_eq!(kb.process_key(Key::S, alt, 0), Some(KeyAction::Settings));
    assert_eq!(kb.process_key(Key::J, plain(), 0), None);
}

#[test]
fn vim_bindings() {
    let mut kb = KeyboardHandler::new();
    kb.toggle_vim_mode();
    assert!(kb.vim_mode);
    assert_eq!(kb.process_key(Key::J, plain(), 1000), Some(KeyAction::NextItem));
    assert_eq!(kb.process_key(Key::K, plain(), 1000), Some(KeyAction::PrevItem));
    assert_eq!(kb.process_key(Key::Slash, plain(), 1000), Some(KeyAction::SearchAllEmails));
    assert_eq!(kb.process_key(Key::Colon, plain(), 1000), Some(KeyAction::EnterCommandMode));
    assert_eq!(kb.process_key(Key::Num1, plain(), 1000), Some(KeyAction::SwitchAccount(0)));
    let shift = Modifiers { ctrl: false, shift: true, alt: false };
    assert_eq!(kb.process_key(Key::G, shift, 1000), Some(KeyAction::LastItem));
    assert_eq!(kb.process_key(Key::N, shift, 1000), Some(KeyAction::SearchPrev));
}

#[test]
fn timed_vim_sequences() {
    let mut kb = KeyboardHandler::new();
    kb.toggle_vim_mode();
    // A lone g long after start matches nothing; a second g within half a
    // second is gg.
    assert_eq!(kb.process_key(Key::G, plain(), 10_000), None);
    assert_eq!(kb.process_key(Key::G, plain(), 10_400), Some(KeyAction::FirstItem));
    // dd likewise; a slow second d does not fire.
    assert_eq!(kb.process_key(Key::D, plain(), 20_000), None);
    assert_eq!(kb.process_key(Key::D, plain(), 20_600), None);
    assert_eq!(kb.process_key(Key::D, plain(), 20_700), Some(KeyAction::Delete));
}

#[test]
fn search_mode_flag() {
    let mut kb = KeyboardHandler::new();
    kb.set_search_mode(true);
    assert!(kb.search_mode);
    kb.set_search_mode(false);
    assert!(!kb.search_mode);
}

#[test]
fn vim_state_mode_machine() {
    let mut vim = VimState::new();
    assert_eq!(vim.mode, VimMode::Normal);
    assert_eq!(vim.get_mode_indicator(), "NORMAL");

    vim.enter_command_mode();
    assert_eq!(vim.mode, VimMode::Command);
    assert_eq!(vim.command_buffer, ":");
    assert_eq!(vim.get_mode_indicator(), "COMMAND");

    vim.enter_visual_mode();
    assert_eq!(vim.get_mode_indicator(), "VISUAL");

    vim.reset();
    assert_eq!(vim.mode, VimMode::Normal);
    assert_eq!(vim.command_buffer, "");
    assert_eq!(vim.repeat_count, None);
    assert_eq!(vim.pending_action, None);
}

#[test]
fn vim_command_parsing() {
    let mut vim = VimState::new();
    assert!(matches!(vim.process_command(":q"), Some(VimCommand::Quit)));
    assert!(matches!(vim.process_command(":quit"), Some(VimCommand::Quit)));
    assert!(matches!(vim.process_command(":w"), Some(VimCommand::Save)));
    assert!(matches!(vim.process_command(":write"), Some(VimCommand::Save)));
    assert!(matches!(vim.process_command(":wq"), Some(VimCommand::SaveQuit)));
    assert!(matches!(vim.process_command(":set vim"), Some(VimCommand::EnableVimMode)));
    assert!(matches!(vim.process_command(":set novim"), Some(VimCommand::DisableVimMode)));
    assert!(matches!(vim.process_command(":help"), Some(VimCommand::Help)));
    match vim.process_command(":set number") {
        Some(VimCommand::SetOption(setting)) => assert_eq!(setting, "number"),
        other => panic!("unexpected parse {other:?}"),
    }
    assert!(vim.process_command(":nonsense").is_none());
    assert!(vim.process_command("q").is_none());
}

#[test]
fn help_tables_cover_both_styles() {
    let vim_help = VimKeymap::get_help_text();
    assert_eq!(vim_help.len(), 19);
    assert_eq!(vim_help[0], ("j/k", "Down/Up"));
    assert!(vim_help.iter().any(|(k, _)| *k == "dd"));

    let traditional = VimKeymap::get_traditional_help_text();
    assert_eq!(traditional.len(), 20);
    assert!(traditional.iter().any(|(k, _)| *k == "Ctrl+Shift+F"));
}
