//! Data model: the parsed desktop-entry record, the assembled application
//! record, and the immutable settings supplied to a scan.

use vstd::prelude::*;
use vstd::string::*;

verus! {

/// The category a desktop-entry file declares itself as.
#[derive(Clone, Copy, Debug, PartialEq, Eq, Structural)]
pub enum EntryKind {
    Application,
    Link,
    Directory,
    Other,
}

/// The `[Desktop Entry]` section of one file, as parsed. Only the default
/// locale of `Name` and `Comment` is kept; absent `OnlyShowIn`/`NotShowIn`
/// are represented by empty lists (both mean "unrestricted").
#[derive(Debug, Clone, PartialEq, Eq)]
pub struct RawDesktopEntry {
    pub entry_type: EntryKind,
    pub name: String,
    pub comment: String,
    pub icon: Option<String>,
    pub exec_cmd: Option<String>,
    pub terminal: Option<bool>,
    pub hidden: Option<bool>,
    pub no_display: Option<bool>,
    pub only_show_in: Vec<String>,
    pub not_show_in: Vec<String>,
}

pub ghost struct RawEntryView {
    pub entry_type: EntryKind,
    pub name: Seq<char>,
    pub comment: Seq<char>,
    pub icon: Option<Seq<char>>,
    pub exec_cmd: Option<Seq<char>>,
    pub terminal: Option<bool>,
    pub hidden: Option<bool>,
    pub no_display: Option<bool>,
    pub only_show_in: Seq<Seq<char>>,
    pub not_show_in: Seq<Seq<char>>,
}

pub open spec fn opt_str_view(o: Option<String>) -> Option<Seq<char>> {
    match o {
        Some(s) => Some(s@),
        None => None,
    }
}

impl View for RawDesktopEntry {
    type V = RawEntryView;

    open spec fn view(&self) -> RawEntryView {
        RawEntryView {
            entry_type: self.entry_type,
            name: self.name@,
            comment: self.comment@,
            icon: opt_str_view(self.icon),
            exec_cmd: opt_str_view(self.exec_cmd),
            terminal: self.terminal,
            hidden: self.hidden,
            no_display: self.no_display,
            only_show_in: self.only_show_in.deep_view(),
            not_show_in: self.not_show_in.deep_view(),
        }
    }
}

/// One launchable application, as surfaced to the caller. `icon` is a
/// resolved filesystem path or the empty string meaning "no icon".
#[derive(Debug, Clone, PartialEq, Eq)]
pub struct Application {
    pub name: String,
    pub comment: String,
    pub icon: String,
    pub exec_cmd: String,
}

pub ghost struct AppView {
    pub name: Seq<char>,
    pub comment: Seq<char>,
    pub icon: Seq<char>,
    pub exec_cmd: Seq<char>,
}

impl View for Application {
    type V = AppView;

    open spec fn view(&self) -> AppView {
        AppView { name: self.name@, comment: self.comment@, icon: self.icon@, exec_cmd: self.exec_cmd@ }
    }
}

impl DeepView for Application {
    type V = AppView;

    open spec fn deep_view(&self) -> AppView {
        self.view()
    }
}

/// Immutable input of one scan: where to look, which desktop environment is
/// current, how to launch terminal applications, and which icon theme to fall
/// back to (empty string: no fallback theme).
pub struct ScanSettings {
    pub lookup_dirs: Vec<String>,
    pub desktop_environment: String,
    pub terminal_app: String,
    pub icon_theme_fallback: String,
}

/// Persistent configuration of the launcher.
pub struct SlayfiConfig {
    pub apps_per_page: u16,
    pub terminal_app: String,
    pub desktop_environment: String,
    pub kde_icon_theme: String,
}

impl Default for SlayfiConfig {
    fn default() -> (r: Self)
        ensures
            r.apps_per_page == 5,
            r.terminal_app@ == "kitty"@,
            r.desktop_environment@ == "Hyprland"@,
            r.kde_icon_theme@ == ""@,
    {
        SlayfiConfig {
            apps_per_page: 5,
            terminal_app: String::from_str("kitty"),
            desktop_environment: String::from_str("Hyprland"),
            kde_icon_theme: String::from_str(""),
        }
    }
}

impl SlayfiConfig {
    /// The part of the configuration that the front end consumes.
    pub fn client_config(&self) -> (r: SlayfiClientConfig)
        ensures
            r.apps_per_page == self.apps_per_page,
    {
        SlayfiClientConfig { apps_per_page: self.apps_per_page }
    }

    /// Scan settings drawn from this configuration and an explicit list of
    /// lookup directories.
    pub fn scan_settings(&self, lookup_dirs: Vec<String>) -> (r: ScanSettings)
        ensures
            r.lookup_dirs == lookup_dirs,
            r.desktop_environment@ == self.desktop_environment@,
            r.terminal_app@ == self.terminal_app@,
            r.icon_theme_fallback@ == self.kde_icon_theme@,
    {
        ScanSettings {
            lookup_dirs,
            desktop_environment: self.desktop_environment.clone(),
            terminal_app: self.terminal_app.clone(),
            icon_theme_fallback: self.kde_icon_theme.clone(),
        }
    }
}

/// The slice of the configuration that the front end consumes.
pub struct SlayfiClientConfig {
    pub apps_per_page: u16,
}

} // verus!
