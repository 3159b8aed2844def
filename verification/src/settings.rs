//! The launcher's settings (the part of `setting.conf` that the launcher's
//! rules read and write; the UI scale factor is kept by the host) and the
//! changes the settings screen and first-run onboarding make to them.

use vstd::prelude::*;

use crate::i18n::{is_supported, supported_locales};

verus! {

/// Settings the launcher's rules read and write.
pub struct Settings {
    /// Start with Windows.
    pub autostart: bool,
    /// The start-with-Windows default was applied, or the user chose.
    pub autostart_initialized: bool,
    /// Esc on the home screen asks before exiting.
    pub exit_confirm: bool,
    /// First-run onboarding done.
    pub initialized: bool,
    /// "manual" (grid kept by hand) or "all" (all Start Menu programs loaded).
    pub menu_mode: String,
    /// Interface locale; empty until chosen or detected.
    pub language: String,
    /// The locale follows the system's language (until the user picks one).
    pub language_auto: bool,
}

/// The contents of a [`Settings`].
pub struct SettingsView {
    pub autostart: bool,
    pub autostart_initialized: bool,
    pub exit_confirm: bool,
    pub initialized: bool,
    pub menu_mode: Seq<char>,
    pub language: Seq<char>,
    pub language_auto: bool,
}

impl View for Settings {
    type V = SettingsView;

    open spec fn view(&self) -> SettingsView {
        SettingsView {
            autostart: self.autostart,
            autostart_initialized: self.autostart_initialized,
            exit_confirm: self.exit_confirm,
            initialized: self.initialized,
            menu_mode: self.menu_mode@,
            language: self.language@,
            language_auto: self.language_auto,
        }
    }
}

/// Settings of a first start.
pub open spec fn default_settings() -> SettingsView {
    SettingsView {
        autostart: false,
        autostart_initialized: false,
        exit_confirm: true,
        initialized: false,
        menu_mode: "manual"@,
        language: Seq::empty(),
        language_auto: true,
    }
}

impl Default for Settings {
    fn default() -> (s: Self)
        ensures
            s@ == default_settings(),
    {
        Settings {
            autostart: false,
            autostart_initialized: false,
            exit_confirm: true,
            initialized: false,
            menu_mode: "manual".to_owned(),
            language: String::new(),
            language_auto: true,
        }
    }
}

/// Stores the user's choice of interface locale when it is supported; the
/// locale then no longer follows the system's language. Returns whether it
/// was stored.
pub fn set_language(settings: &mut Settings, code: &str) -> (stored: bool)
    ensures
        stored == supported_locales().contains(code@),
        stored ==> final(settings)@ == (SettingsView {
            language: code@,
            language_auto: false,
            ..old(settings)@
        }),
        !stored ==> final(settings)@ == old(settings)@,
{
    if !is_supported(code) {
        return false;
    }
    settings.language = code.to_owned();
    settings.language_auto = false;
    true
}

/// Records the outcome of switching start-with-Windows to `enabled`: only a
/// switch that took effect (`ok`) is stored, so the settings never claim a
/// state the registry does not have. Returns `ok`.
pub fn record_autostart(settings: &mut Settings, enabled: bool, ok: bool) -> (r: bool)
    ensures
        r == ok,
        ok ==> final(settings)@ == (SettingsView {
            autostart: enabled,
            autostart_initialized: true,
            ..old(settings)@
        }),
        !ok ==> final(settings)@ == old(settings)@,
{
    if ok {
        settings.autostart = enabled;
        settings.autostart_initialized = true;
    }
    ok
}

/// Clearing the menu cache: onboarding runs again at the next start, in
/// manual mode (the host empties the grid list too).
pub fn clear_menu_cache(settings: &mut Settings)
    ensures
        final(settings)@ == (SettingsView {
            initialized: false,
            menu_mode: "manual"@,
            ..old(settings)@
        }),
{
    settings.initialized = false;
    settings.menu_mode = "manual".to_owned();
}

/// The onboarding choice `mode`: onboarding is done and the mode stored.
/// Returns whether all Start Menu programs are to be loaded into the grid
/// (mode "all"); otherwise the grid starts empty.
pub fn init_menu(settings: &mut Settings, mode: &str) -> (load_all: bool)
    ensures
        final(settings)@ == (SettingsView { initialized: true, menu_mode: mode@, ..old(settings)@ }),
        load_all == (mode@ == "all"@),
{
    settings.initialized = true;
    settings.menu_mode = mode.to_owned();
    settings.menu_mode == "all".to_owned()
}

/// After onboarding has run, clearing the menu cache brings it back at the
/// next start, and the chosen mode is reset to manual.
pub proof fn lemma_clear_cache_restarts_onboarding(s: SettingsView, mode: Seq<char>)
    ensures
        ({
            let after_init = SettingsView { initialized: true, menu_mode: mode, ..s };
            let cleared = SettingsView { initialized: false, menu_mode: "manual"@, ..after_init };
            !cleared.initialized && cleared.menu_mode == "manual"@ && cleared.autostart
                == s.autostart && cleared.language == s.language
        }),
{
}

} // verus!
