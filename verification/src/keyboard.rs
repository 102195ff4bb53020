//! Keyboard-to-intent mapping: the intent enumeration, the library's own
//! model of a pressed key with its modifiers, and the two binding tables
//! (traditional and vim-style), including the timed two-stroke vim
//! sequences.
use vstd::prelude::*;

verus! {

/// The intent a key press maps to.
#[derive(Debug, Clone, PartialEq, Eq, Structural)]
pub enum KeyAction {
    NextItem,
    PrevItem,
    FirstItem,
    LastItem,
    NextPanel,
    PrevPanel,
    SwitchAccount(usize),
    Compose,
    Reply,
    Forward,
    Delete,
    MarkRead,
    MarkUnread,
    SearchCurrentEmail,
    SearchAllEmails,
    SearchNext,
    SearchPrev,
    Select,
    SelectAll,
    ToggleRead,
    RefreshFolder,
    Settings,
    Help,
    ToggleVimMode,
    Cancel,
    Confirm,
    EnterCommandMode,
}

/// A pressed key, as the binding tables read it.
#[derive(Debug, Clone, Copy, PartialEq, Eq, Structural)]
pub enum Key {
    Num1,
    Num2,
    Num3,
    Tab,
    ArrowLeft,
    ArrowRight,
    ArrowUp,
    ArrowDown,
    Home,
    End,
    PageUp,
    PageDown,
    Enter,
    Escape,
    Space,
    Delete,
    Slash,
    Colon,
    A,
    C,
    D,
    F,
    G,
    H,
    J,
    K,
    L,
    N,
    R,
    S,
    U,
    V,
    W,
}

/// The modifier keys held with a press.
#[derive(Debug, Clone, Copy, PartialEq, Eq, Structural)]
pub struct Modifiers {
    pub ctrl: bool,
    pub shift: bool,
    pub alt: bool,
}

/// The traditional (non-vim) binding table.
pub open spec fn traditional_action(key: Key, m: Modifiers) -> Option<KeyAction> {
    if key == Key::Num1 && m.ctrl {
        Some(KeyAction::SwitchAccount(0))
    } else if key == Key::Num2 && m.ctrl {
        Some(KeyAction::SwitchAccount(1))
    } else if key == Key::Num3 && m.ctrl {
        Some(KeyAction::SwitchAccount(2))
    } else if key == Key::Tab && m.shift {
        Some(KeyAction::PrevPanel)
    } else if key == Key::Tab {
        Some(KeyAction::NextPanel)
    } else if key == Key::ArrowLeft {
        Some(KeyAction::PrevPanel)
    } else if key == Key::ArrowRight {
        Some(KeyAction::NextPanel)
    } else if key == Key::ArrowUp {
        Some(KeyAction::PrevItem)
    } else if key == Key::ArrowDown {
        Some(KeyAction::NextItem)
    } else if key == Key::Home {
        Some(KeyAction::FirstItem)
    } else if key == Key::End {
        Some(KeyAction::LastItem)
    } else if key == Key::PageUp {
        Some(KeyAction::FirstItem)
    } else if key == Key::PageDown {
        Some(KeyAction::LastItem)
    } else if key == Key::N && m.ctrl {
        Some(KeyAction::Compose)
    } else if key == Key::R && m.ctrl && !m.shift {
        Some(KeyAction::Reply)
    } else if key == Key::L && m.ctrl {
        Some(KeyAction::Forward)
    } else if key == Key::D && m.ctrl {
        Some(KeyAction::Delete)
    } else if key == Key::Delete {
        Some(KeyAction::Delete)
    } else if key == Key::F && m.ctrl && !m.shift {
        Some(KeyAction::SearchCurrentEmail)
    } else if key == Key::F && m.ctrl && m.shift {
        Some(KeyAction::SearchAllEmails)
    } else if key == Key::G && m.ctrl && m.shift {
        Some(KeyAction::SearchPrev)
    } else if key == Key::G && m.ctrl {
        Some(KeyAction::SearchNext)
    } else if key == Key::Space {
        Some(KeyAction::Select)
    } else if key == Key::A && m.ctrl {
        Some(KeyAction::SelectAll)
    } else if key == Key::Enter {
        Some(KeyAction::Confirm)
    } else if key == Key::Escape {
        Some(KeyAction::Cancel)
    } else if key == Key::R && m.ctrl && m.shift {
        Some(KeyAction::RefreshFolder)
    } else if key == Key::W && m.ctrl {
        Some(KeyAction::Cancel)
    } else if key == Key::S && m.alt {
        Some(KeyAction::Settings)
    } else if key == Key::H && m.ctrl {
        Some(KeyAction::Help)
    } else {
        None
    }
}

/// The vim-style binding table, not counting the timed two-stroke sequences.
pub open spec fn vim_primary_action(key: Key, m: Modifiers) -> Option<KeyAction> {
    if key == Key::Num1 {
        Some(KeyAction::SwitchAccount(0))
    } else if key == Key::Num2 {
        Some(KeyAction::SwitchAccount(1))
    } else if key == Key::Num3 {
        Some(KeyAction::SwitchAccount(2))
    } else if key == Key::J {
        Some(KeyAction::NextItem)
    } else if key == Key::K {
        Some(KeyAction::PrevItem)
    } else if key == Key::H {
        Some(KeyAction::PrevPanel)
    } else if key == Key::L {
        Some(KeyAction::NextPanel)
    } else if key == Key::G && m.shift {
        Some(KeyAction::LastItem)
    } else if key == Key::C {
        Some(KeyAction::Compose)
    } else if key == Key::R {
        Some(KeyAction::Reply)
    } else if key == Key::F {
        Some(KeyAction::Forward)
    } else if key == Key::Slash {
        Some(KeyAction::SearchAllEmails)
    } else if key == Key::N && m.shift {
        Some(KeyAction::SearchPrev)
    } else if key == Key::N {
        Some(KeyAction::SearchNext)
    } else if key == Key::Space {
        Some(KeyAction::Select)
    } else if key == Key::V {
        Some(KeyAction::SelectAll)
    } else if key == Key::Enter {
        Some(KeyAction::Confirm)
    } else if key == Key::Escape {
        Some(KeyAction::Cancel)
    } else if key == Key::U && m.ctrl {
        Some(KeyAction::RefreshFolder)
    } else if key == Key::Colon {
        Some(KeyAction::EnterCommandMode)
    } else {
        None
    }
}

/// Milliseconds since the previous stroke, clamped at zero.
pub open spec fn elapsed_ms(last: int, now: int) -> int {
    if now >= last {
        now - last
    } else {
        0
    }
}

/// The timed two-stroke vim sequences: a repeated `g` within half a second
/// is `gg` (first item), a repeated `d` is `dd` (delete).
pub open spec fn vim_sequence_action(key: Key, last: int, now: int) -> Option<KeyAction> {
    if key == Key::G && elapsed_ms(last, now) < 500 {
        Some(KeyAction::FirstItem)
    } else if key == Key::D && elapsed_ms(last, now) < 500 {
        Some(KeyAction::Delete)
    } else {
        None
    }
}

/// Keyboard state: which binding table is active, whether a search field has
/// focus, and the time of the last stroke that fell through to the sequence
/// matcher.
#[derive(Debug)]
pub struct KeyboardHandler {
    pub vim_mode: bool,
    pub search_mode: bool,
    pub last_key_time: u64,
}

impl KeyboardHandler {
    /// The time of the last stroke seen by the sequence matcher.
    pub open spec fn last_stroke(&self) -> int {
        self.last_key_time as int
    }

    /// A handler in traditional mode with no stroke history.
    pub fn new() -> (r: Self)
        ensures
            !r.vim_mode,
            !r.search_mode,
            r.last_stroke() == 0,
    {
        KeyboardHandler { vim_mode: false, search_mode: false, last_key_time: 0 }
    }

    /// Maps one key press at time `now_ms` to an intent, using the active
    /// binding table. In vim mode a press that matches no primary binding is
    /// fed to the sequence matcher, which also records the stroke time.
    pub fn process_key(&mut self, key: Key, modifiers: Modifiers, now_ms: u64) -> (r: Option<
        KeyAction,
    >)
        ensures
            final(self).vim_mode == old(self).vim_mode,
            final(self).search_mode == old(self).search_mode,
            if old(self).vim_mode {
                match vim_primary_action(key, modifiers) {
                    Some(a) => r == Some(a) && final(self).last_stroke() == old(
                        self,
                    ).last_stroke(),
                    None => r == vim_sequence_action(key, old(self).last_stroke(), now_ms as int)
                        && final(self).last_stroke() == now_ms as int,
                }
            } else {
                r == traditional_action(key, modifiers) && final(self).last_stroke() == old(
                    self,
                ).last_stroke()
            },
    {
        if self.vim_mode {
            self.process_vim_key(key, modifiers, now_ms)
        } else {
            self.process_traditional_key(key, modifiers)
        }
    }

    /// The traditional binding table.
    pub fn process_traditional_key(&mut self, key: Key, modifiers: Modifiers) -> (r: Option<
        KeyAction,
    >)
        ensures
            *final(self) == *old(self),
            r == traditional_action(key, modifiers),
    {
        let m = modifiers;
        if key == Key::Num1 && m.ctrl {
            Some(KeyAction::SwitchAccount(0))
        } else if key == Key::Num2 && m.ctrl {
            Some(KeyAction::SwitchAccount(1))
        } else if key == Key::Num3 && m.ctrl {
            Some(KeyAction::SwitchAccount(2))
        } else if key == Key::Tab && m.shift {
            Some(KeyAction::PrevPanel)
        } else if key == Key::Tab {
            Some(KeyAction::NextPanel)
        } else if key == Key::ArrowLeft {
            Some(KeyAction::PrevPanel)
        } else if key == Key::ArrowRight {
            Some(KeyAction::NextPanel)
        } else if key == Key::ArrowUp {
            Some(KeyAction::PrevItem)
        } else if key == Key::ArrowDown {
            Some(KeyAction::NextItem)
        } else if key == Key::Home {
            Some(KeyAction::FirstItem)
        } else if key == Key::End {
            Some(KeyAction::LastItem)
        } else if key == Key::PageUp {
            Some(KeyAction::FirstItem)
        } else if key == Key::PageDown {
            Some(KeyAction::LastItem)
        } else if key == Key::N && m.ctrl {
            Some(KeyAction::Compose)
        } else if key == Key::R && m.ctrl && !m.shift {
            Some(KeyAction::Reply)
        } else if key == Key::L && m.ctrl {
            Some(KeyAction::Forward)
        } else if key == Key::D && m.ctrl {
            Some(KeyAction::Delete)
        } else if key == Key::Delete {
            Some(KeyAction::Delete)
        } else if key == Key::F && m.ctrl && !m.shift {
            Some(KeyAction::SearchCurrentEmail)
        } else if key == Key::F && m.ctrl && m.shift {
            Some(KeyAction::SearchAllEmails)
        } else if key == Key::G && m.ctrl && m.shift {
            Some(KeyAction::SearchPrev)
        } else if key == Key::G && m.ctrl {
            Some(KeyAction::SearchNext)
        } else if key == Key::Space {
            Some(KeyAction::Select)
        } else if key == Key::A && m.ctrl {
            Some(KeyAction::SelectAll)
        } else if key == Key::Enter {
            Some(KeyAction::Confirm)
        } else if key == Key::Escape {
            Some(KeyAction::Cancel)
        } else if key == Key::R && m.ctrl && m.shift {
            Some(KeyAction::RefreshFolder)
        } else if key == Key::W && m.ctrl {
            Some(KeyAction::Cancel)
        } else if key == Key::S && m.alt {
            Some(KeyAction::Settings)
        } else if key == Key::H && m.ctrl {
            Some(KeyAction::Help)
        } else {
            None
        }
    }

    /// The vim binding table, falling through to the timed sequences.
    pub fn process_vim_key(&mut self, key: Key, modifiers: Modifiers, now_ms: u64) -> (r: Option<
        KeyAction,
    >)
        ensures
            final(self).vim_mode == old(self).vim_mode,
            final(self).search_mode == old(self).search_mode,
            match vim_primary_action(key, modifiers) {
                Some(a) => r == Some(a) && final(self).last_stroke() == old(self).last_stroke(),
                None => r == vim_sequence_action(key, old(self).last_stroke(), now_ms as int)
                    && final(self).last_stroke() == now_ms as int,
            },
    {
        let m = modifiers;
        if key == Key::Num1 {
            Some(KeyAction::SwitchAccount(0))
        } else if key == Key::Num2 {
            Some(KeyAction::SwitchAccount(1))
        } else if key == Key::Num3 {
            Some(KeyAction::SwitchAccount(2))
        } else if key == Key::J {
            Some(KeyAction::NextItem)
        } else if key == Key::K {
            Some(KeyAction::PrevItem)
        } else if key == Key::H {
            Some(KeyAction::PrevPanel)
        } else if key == Key::L {
            Some(KeyAction::NextPanel)
        } else if key == Key::G && m.shift {
            Some(KeyAction::LastItem)
        } else if key == Key::C {
            Some(KeyAction::Compose)
        } else if key == Key::R {
            Some(KeyAction::Reply)
        } else if key == Key::F {
            Some(KeyAction::Forward)
        } else if key == Key::Slash {
            Some(KeyAction::SearchAllEmails)
        } else if key == Key::N && m.shift {
            Some(KeyAction::SearchPrev)
        } else if key == Key::N {
            Some(KeyAction::SearchNext)
        } else if key == Key::Space {
            Some(KeyAction::Select)
        } else if key == Key::V {
            Some(KeyAction::SelectAll)
        } else if key == Key::Enter {
            Some(KeyAction::Confirm)
        } else if key == Key::Escape {
            Some(KeyAction::Cancel)
        } else if key == Key::U && m.ctrl {
            Some(KeyAction::RefreshFolder)
        } else if key == Key::Colon {
            Some(KeyAction::EnterCommandMode)
        } else {
            self.process_vim_sequence(key, now_ms)
        }
    }

    /// The timed two-stroke sequences (`gg`, `dd`): each fall-through stroke
    /// becomes the new reference time.
    pub fn process_vim_sequence(&mut self, key: Key, now_ms: u64) -> (r: Option<KeyAction>)
        ensures
            final(self).vim_mode == old(self).vim_mode,
            final(self).search_mode == old(self).search_mode,
            final(self).last_stroke() == now_ms as int,
            r == vim_sequence_action(key, old(self).last_stroke(), now_ms as int),
    {
        let since_last = if now_ms >= self.last_key_time {
            now_ms - self.last_key_time
        } else {
            0
        };
        self.last_key_time = now_ms;
        if key == Key::G && since_last < 500 {
            Some(KeyAction::FirstItem)
        } else if key == Key::D && since_last < 500 {
            Some(KeyAction::Delete)
        } else {
            None
        }
    }

    /// Switches between the traditional and vim binding tables.
    pub fn toggle_vim_mode(&mut self)
        ensures
            final(self).vim_mode == !old(self).vim_mode,
            final(self).search_mode == old(self).search_mode,
            final(self).last_stroke() == old(self).last_stroke(),
    {
        self.vim_mode = !self.vim_mode;
    }

    /// Marks whether a search field currently has focus.
    pub fn set_search_mode(&mut self, enabled: bool)
        ensures
            final(self).search_mode == enabled,
            final(self).vim_mode == old(self).vim_mode,
            final(self).last_stroke() == old(self).last_stroke(),
    {
        self.search_mode = enabled;
    }
}

} // verus!
