//! Settings dialog state: the theme, layout, and behavior switches the
//! front end edits, with their defaults.
use vstd::prelude::*;

verus! {

/// The color theme choice.
#[derive(Debug, Clone, Copy, PartialEq, Eq, Structural)]
pub enum AppTheme {
    Light,
    Dark,
    Auto,
}

impl AppTheme {
    /// The theme name shown in the theme selector.
    pub fn display_name(&self) -> (r: &'static str)
        ensures
            r@ == (match *self {
                AppTheme::Light => "Light"@,
                AppTheme::Dark => "Dark"@,
                AppTheme::Auto => "Auto"@,
            }),
    {
        match self {
            AppTheme::Light => "Light",
            AppTheme::Dark => "Dark",
            AppTheme::Auto => "Auto",
        }
    }
}

/// What the settings dialog asked for.
#[derive(Debug, Clone, PartialEq, Eq, Structural)]
pub enum SettingsAction {
    Apply,
    Cancel,
    Reset,
    VimModeToggled(bool),
    ThemeChanged(AppTheme),
}

/// The settings dialog's state and the effective preferences.
#[derive(Debug, Clone, PartialEq, Eq, Structural)]
pub struct SettingsWindow {
    pub visible: bool,
    pub vim_mode: bool,
    pub theme: AppTheme,
    pub show_status_bar: bool,
    pub show_folder_icons: bool,
    pub auto_refresh: bool,
    pub refresh_interval: u32,
    pub confirm_delete: bool,
    pub compact_layout: bool,
}

/// The default preferences: traditional input, automatic theme, status bar
/// and folder icons on, no auto-refresh (five-minute interval when enabled),
/// delete confirmation on, comfortable layout.
pub open spec fn default_settings() -> SettingsWindow {
    SettingsWindow {
        visible: false,
        vim_mode: false,
        theme: AppTheme::Auto,
        show_status_bar: true,
        show_folder_icons: true,
        auto_refresh: false,
        refresh_interval: 5,
        confirm_delete: true,
        compact_layout: false,
    }
}

impl SettingsWindow {
    /// The dialog with the default preferences, hidden.
    pub fn new() -> (r: Self)
        ensures
            r == default_settings(),
    {
        SettingsWindow {
            visible: false,
            vim_mode: false,
            theme: AppTheme::Auto,
            show_status_bar: true,
            show_folder_icons: true,
            auto_refresh: false,
            refresh_interval: 5,
            confirm_delete: true,
            compact_layout: false,
        }
    }

    /// Opens the dialog.
    pub fn show(&mut self)
        ensures
            *final(self) == (SettingsWindow { visible: true, ..*old(self) }),
    {
        self.visible = true;
    }

    /// Closes the dialog.
    pub fn close(&mut self)
        ensures
            *final(self) == (SettingsWindow { visible: false, ..*old(self) }),
    {
        self.visible = false;
    }

    /// Mirrors the keyboard handler's current vim-mode flag into the dialog.
    pub fn update_vim_mode(&mut self, vim_mode: bool)
        ensures
            *final(self) == (SettingsWindow { vim_mode, ..*old(self) }),
    {
        self.vim_mode = vim_mode;
    }

    /// Back to the defaults, with the dialog kept open.
    pub fn reset_to_defaults(&mut self)
        ensures
            *final(self) == (SettingsWindow { visible: true, ..default_settings() }),
    {
        self.visible = true;
        self.vim_mode = false;
        self.theme = AppTheme::Auto;
        self.show_status_bar = true;
        self.show_folder_icons = true;
        self.auto_refresh = false;
        self.refresh_interval = 5;
        self.confirm_delete = true;
        self.compact_layout = false;
    }

    /// Settings persistence is outside this scope: loading changes nothing
    /// and the defaults apply.
    pub fn load_from_config(&mut self)
        ensures
            *final(self) == *old(self),
    {
    }

    /// Settings persistence is outside this scope: saving is a no-op.
    pub fn save_to_config(&self) {
    }

    pub fn get_vim_mode(&self) -> (r: bool)
        ensures
            r == self.vim_mode,
    {
        self.vim_mode
    }

    pub fn get_theme(&self) -> (r: &AppTheme)
        ensures
            *r == self.theme,
    {
        &self.theme
    }

    pub fn get_show_status_bar(&self) -> (r: bool)
        ensures
            r == self.show_status_bar,
    {
        self.show_status_bar
    }

    pub fn get_show_folder_icons(&self) -> (r: bool)
        ensures
            r == self.show_folder_icons,
    {
        self.show_folder_icons
    }

    pub fn get_auto_refresh(&self) -> (r: bool)
        ensures
            r == self.auto_refresh,
    {
        self.auto_refresh
    }

    pub fn get_refresh_interval(&self) -> (r: u32)
        ensures
            r == self.refresh_interval,
    {
        self.refresh_interval
    }

    pub fn get_confirm_delete(&self) -> (r: bool)
        ensures
            r == self.confirm_delete,
    {
        self.confirm_delete
    }

    pub fn get_compact_layout(&self) -> (r: bool)
        ensures
            r == self.compact_layout,
    {
        self.compact_layout
    }
}

} // verus!
