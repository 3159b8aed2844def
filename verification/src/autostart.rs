//! Start with Windows: the per-user `Run` registry value written through the
//! system's `reg.exe`, and the first-start default (on for the installed
//! edition, off for the portable one, never overriding the user's choice).

use vstd::prelude::*;

use crate::settings::{Settings, SettingsView};
use crate::text::{owned_strings, string_views};

verus! {

/// Registry key of the per-user start-up programs.
pub open spec fn run_key() -> Seq<char> {
    "HKCU\\Software\\Microsoft\\Windows\\CurrentVersion\\Run"@
}

/// Name of the launcher's value under the `Run` key.
pub open spec fn value_name() -> Seq<char> {
    "WinNasLauncher"@
}

/// Arguments of `reg` that register `exe` to start with Windows; none when the
/// launcher's own path is unknown (then enabling fails).
pub fn enable_args(exe: &str) -> (r: Option<Vec<String>>)
    ensures
        exe@.len() == 0 ==> r is None,
        exe@.len() > 0 ==> r is Some && string_views(r->0@) == seq![
            "add"@,
            run_key(),
            "/v"@,
            value_name(),
            "/t"@,
            "REG_SZ"@,
            "/d"@,
            exe@,
            "/f"@,
        ],
{
    if exe.is_empty() {
        return None;
    }
    let mut args = owned_strings(
        &["add", "HKCU\\Software\\Microsoft\\Windows\\CurrentVersion\\Run", "/v", "WinNasLauncher", "/t", "REG_SZ", "/d"],
    );
    let ghost a = string_views(args@);
    args.push(exe.to_owned());
    let ghost b = string_views(args@);
    assert(b =~= a.push(exe@));
    args.push("/f".to_owned());
    assert(string_views(args@) =~= b.push("/f"@));
    Some(args)
}

/// Arguments of `reg` that remove the launcher from the start-up programs.
pub fn disable_args() -> (r: Vec<String>)
    ensures
        string_views(r@) == seq!["delete"@, run_key(), "/v"@, value_name(), "/f"@],
{
    owned_strings(
        &["delete", "HKCU\\Software\\Microsoft\\Windows\\CurrentVersion\\Run", "/v", "WinNasLauncher", "/f"],
    )
}

/// Whether the first-start default applies: installed edition (not portable),
/// never applied before, and start-with-Windows not already on.
pub open spec fn default_applies(portable: bool, s: SettingsView) -> bool {
    !portable && !s.autostart_initialized && !s.autostart
}

/// Whether to switch start-with-Windows on as the first-start default.
pub fn apply_autostart_default(portable: bool, settings: &Settings) -> (enable: bool)
    ensures
        enable == default_applies(portable, settings@),
{
    if portable {
        return false;
    }
    !(settings.autostart_initialized || settings.autostart)
}

/// Records the outcome `ok` of the first-start default: start-with-Windows is
/// on exactly when it took effect, and the default is never applied again.
pub fn record_autostart_default(settings: &mut Settings, ok: bool)
    ensures
        final(settings)@ == (SettingsView {
            autostart: ok,
            autostart_initialized: true,
            ..old(settings)@
        }),
{
    settings.autostart = ok;
    settings.autostart_initialized = true;
}

/// The default is applied at most once: after its outcome is recorded, it no
/// longer applies, whatever the outcome.
pub proof fn lemma_default_applied_once(portable: bool, s: SettingsView, ok: bool)
    ensures
        !default_applies(portable, SettingsView { autostart: ok, autostart_initialized: true, ..s }),
{
}

/// The portable edition never switches start-with-Windows on by default, and
/// a user's earlier choice is never overridden.
pub proof fn lemma_default_respects_choice(portable: bool, s: SettingsView)
    ensures
        portable ==> !default_applies(portable, s),
        s.autostart_initialized ==> !default_applies(portable, s),
{
}

} // verus!
