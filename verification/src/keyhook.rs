//! System shortcut interception for the low-level keyboard hook: which key
//! strokes the launcher swallows (Win, Win+D, Win+Tab, Alt+F4,
//! Ctrl+Shift+Esc, and the remote's volume, sleep and home keys), and what
//! the hook does with each stroke.

use vstd::prelude::*;

verus! {

/// Windows virtual-key codes used by the interception rules.
pub const VK_TAB: u16 = 0x09;
pub const VK_ESCAPE: u16 = 0x1b;
pub const VK_HOME: u16 = 0x24;
pub const VK_D: u16 = 0x44;
pub const VK_LWIN: u16 = 0x5b;
pub const VK_RWIN: u16 = 0x5c;
pub const VK_SLEEP: u16 = 0x5f;
pub const VK_F4: u16 = 0x73;
pub const VK_BROWSER_HOME: u16 = 0xac;
pub const VK_VOLUME_MUTE: u16 = 0xad;
pub const VK_VOLUME_DOWN: u16 = 0xae;
pub const VK_VOLUME_UP: u16 = 0xaf;

/// Keyboard messages that the hook receives.
pub const WM_KEYDOWN: u32 = 0x0100;
pub const WM_KEYUP: u32 = 0x0101;
pub const WM_SYSKEYDOWN: u32 = 0x0104;
pub const WM_SYSKEYUP: u32 = 0x0105;

/// The name of the shortcut that a key stroke makes, if the launcher swallows
/// it. Volume, sleep and browser-home keys are swallowed whatever modifier is
/// held; then, with Win held: D, Tab and the Win keys themselves; without Win:
/// Alt+F4 and Ctrl+Shift+Esc.
pub open spec fn intercept(vk: u16, win: bool, alt: bool, ctrl: bool, shift: bool) -> Option<
    Seq<char>,
> {
    if vk == VK_VOLUME_UP {
        Some("VOL_UP"@)
    } else if vk == VK_VOLUME_DOWN {
        Some("VOL_DOWN"@)
    } else if vk == VK_VOLUME_MUTE {
        Some("VOL_MUTE"@)
    } else if vk == VK_SLEEP {
        Some("SLEEP"@)
    } else if vk == VK_BROWSER_HOME {
        Some("HOME"@)
    } else if win {
        if vk == VK_D {
            Some("WIN+D"@)
        } else if vk == VK_TAB {
            Some("WIN+TAB"@)
        } else if vk == VK_LWIN || vk == VK_RWIN {
            Some("WIN"@)
        } else {
            None
        }
    } else if alt && vk == VK_F4 {
        Some("ALT+F4"@)
    } else if ctrl && shift && vk == VK_ESCAPE {
        Some("CTRL+SHIFT+ESC"@)
    } else {
        None
    }
}

/// Classifies a key stroke: the shortcut name when the launcher swallows it.
pub fn classify(vk: u16, win: bool, alt: bool, ctrl: bool, shift: bool) -> (r: Option<
    &'static str,
>)
    ensures
        match r {
            Some(name) => intercept(vk, win, alt, ctrl, shift) == Some(name@),
            None => intercept(vk, win, alt, ctrl, shift) is None,
        },
{
    if vk == VK_VOLUME_UP {
        return Some("VOL_UP");
    }
    if vk == VK_VOLUME_DOWN {
        return Some("VOL_DOWN");
    }
    if vk == VK_VOLUME_MUTE {
        return Some("VOL_MUTE");
    }
    if vk == VK_SLEEP {
        return Some("SLEEP");
    }
    if vk == VK_BROWSER_HOME {
        return Some("HOME");
    }
    if win {
        if vk == VK_D {
            Some("WIN+D")
        } else if vk == VK_TAB {
            Some("WIN+TAB")
        } else if vk == VK_LWIN || vk == VK_RWIN {
            Some("WIN")
        } else {
            None
        }
    } else if alt && vk == VK_F4 {
        Some("ALT+F4")
    } else if ctrl && shift && vk == VK_ESCAPE {
        Some("CTRL+SHIFT+ESC")
    } else {
        None
    }
}

/// A key-down message (plain or with Alt).
pub open spec fn is_key_down(msg: u32) -> bool {
    msg == WM_KEYDOWN || msg == WM_SYSKEYDOWN
}

/// What the hook does with one key stroke.
pub enum HookVerdict {
    /// Swallow the stroke; on key-down, run the named shortcut's action.
    Swallow { action: Option<&'static str> },
    /// Hand the stroke on to the next hook; `log_unhandled` asks for a log line
    /// naming the key (unhandled Home, browser and media keys on key-down).
    Pass { log_unhandled: bool },
}

/// The hook's decision for one call: `code` is the hook code (negative codes
/// are handed on untouched), `msg` the keyboard message, `vk` the key, the
/// flags which modifiers are held.
pub fn hook_verdict(code: i32, msg: u32, vk: u16, win: bool, alt: bool, ctrl: bool, shift: bool) -> (r:
    HookVerdict)
    ensures
        code < 0 ==> r == (HookVerdict::Pass { log_unhandled: false }),
        code >= 0 && intercept(vk, win, alt, ctrl, shift) is Some ==> (match r {
            HookVerdict::Swallow { action } => match action {
                Some(name) => is_key_down(msg) && intercept(vk, win, alt, ctrl, shift) == Some(
                    name@,
                ),
                None => !is_key_down(msg),
            },
            HookVerdict::Pass { .. } => false,
        }),
        code >= 0 && intercept(vk, win, alt, ctrl, shift) is None ==> r == (HookVerdict::Pass {
            log_unhandled: is_key_down(msg) && (vk == VK_HOME || vk >= 0xa6),
        }),
{
    if code < 0 {
        return HookVerdict::Pass { log_unhandled: false };
    }
    let down = msg == WM_KEYDOWN || msg == WM_SYSKEYDOWN;
    match classify(vk, win, alt, ctrl, shift) {
        Some(name) => {
            if down {
                HookVerdict::Swallow { action: Some(name) }
            } else {
                HookVerdict::Swallow { action: None }
            }
        },
        None => HookVerdict::Pass { log_unhandled: down && (vk == VK_HOME || vk >= 0xa6) },
    }
}

/// The work behind a swallowed shortcut.
#[derive(Debug, Clone, Copy, PartialEq, Eq)]
pub enum KeyAction {
    /// Raise the master volume one step and show the volume overlay.
    VolumeUp,
    /// Lower the master volume one step and show the volume overlay.
    VolumeDown,
    /// Toggle mute and show the volume overlay.
    ToggleMute,
    /// Suspend to RAM (the remote's power key).
    Sleep,
    /// Bring the launcher to the front (the remote's home key).
    ShowLauncher,
    /// Nothing but a diagnostic line.
    Report,
}

/// The action of each shortcut name.
pub open spec fn action_of(name: Seq<char>) -> KeyAction {
    if name == "VOL_UP"@ {
        KeyAction::VolumeUp
    } else if name == "VOL_DOWN"@ {
        KeyAction::VolumeDown
    } else if name == "VOL_MUTE"@ {
        KeyAction::ToggleMute
    } else if name == "SLEEP"@ {
        KeyAction::Sleep
    } else if name == "HOME"@ {
        KeyAction::ShowLauncher
    } else {
        KeyAction::Report
    }
}

/// The action to run for a swallowed shortcut.
pub fn key_action(name: &str) -> (r: KeyAction)
    ensures
        r == action_of(name@),
{
    let n = name.to_owned();
    if n == "VOL_UP".to_owned() {
        KeyAction::VolumeUp
    } else if n == "VOL_DOWN".to_owned() {
        KeyAction::VolumeDown
    } else if n == "VOL_MUTE".to_owned() {
        KeyAction::ToggleMute
    } else if n == "SLEEP".to_owned() {
        KeyAction::Sleep
    } else if n == "HOME".to_owned() {
        KeyAction::ShowLauncher
    } else {
        KeyAction::Report
    }
}

/// Volume, sleep and home keys are swallowed whatever modifiers are held.
pub proof fn lemma_remote_keys_ignore_modifiers(
    vk: u16,
    win: bool,
    alt: bool,
    ctrl: bool,
    shift: bool,
)
    requires
        vk == VK_VOLUME_UP || vk == VK_VOLUME_DOWN || vk == VK_VOLUME_MUTE || vk == VK_SLEEP || vk
            == VK_BROWSER_HOME,
    ensures
        intercept(vk, win, alt, ctrl, shift) == intercept(vk, false, false, false, false),
        intercept(vk, win, alt, ctrl, shift) is Some,
{
}

/// Without a modifier held, only the remote's keys are swallowed: ordinary
/// keys (Enter, letters, Esc alone, F4 alone) pass through.
pub proof fn lemma_plain_keys_pass(vk: u16)
    requires
        vk != VK_VOLUME_UP && vk != VK_VOLUME_DOWN && vk != VK_VOLUME_MUTE && vk != VK_SLEEP && vk
            != VK_BROWSER_HOME,
    ensures
        intercept(vk, false, false, false, false) is None,
{
}

} // verus!
