use winnas_launcher::input::{map_button, map_key, Action, GamepadButton};
use winnas_launcher::keyhook::{classify, hook_verdict, key_action, HookVerdict, KeyAction};
use winnas_launcher::keyhook_probe;

const VK_RETURN: u16 = 0x0d;
const VK_ESCAPE: u16 = 0x1b;
const VK_TAB: u16 = 0x09;
const VK_D: u16 = 0x44;
const VK_LWIN: u16 = 0x5b;
const VK_RWIN: u16 = 0x5c;
const VK_F4: u16 = 0x73;
const VK_HOME: u16 = 0x24;
const VK_VOLUME_MUTE: u16 = 0xad;
const VK_VOLUME_DOWN: u16 = 0xae;
const VK_VOLUME_UP: u16 = 0xaf;
const VK_SLEEP: u16 = 0x5f;
const VK_BROWSER_HOME: u16 = 0xac;
const WM_KEYDOWN: u32 = 0x0100;
const WM_KEYUP: u32 = 0x0101;
const WM_SYSKEYDOWN: u32 = 0x0104;
const WM_SYSKEYUP: u32 = 0x0105;

#[test]
fn probe_classify_self_tests() {
    let cases: &[(u16, bool, bool, bool, bool, Option<&str>)] = &[
        (VK_F4, false, true, false, false, Some("ALT+F4")),
        (VK_D, true, false, false, false, Some("WIN+D")),
        (VK_TAB, true, false, false, false, Some("WIN+TAB")),
        (VK_LWIN, true, false, false, false, Some("WIN")),
        (VK_RWIN, true, false, false, false, Some("WIN")),
        (VK_ESCAPE, false, false, true, true, Some("CTRL+SHIFT+ESC")),
        (VK_ESCAPE, false, false, true, false, Some("CTRL+ESC")),
        (VK_RETURN, false, false, false, false, None),
        (VK_RETURN, false, false, true, false, None),
        (0x41, false, false, true, false, None),
        (VK_ESCAPE, false, false, false, false, None),
        (VK_F4, false, false, false, false, None),
    ];
    for &(vk, win, alt, ctrl, shift, expected) in cases {
        assert_eq!(keyhook_probe::classify(vk, win, alt, ctrl, shift), expected, "vk=0x{vk:04x}");
    }
}

#[test]
fn probe_message_kinds() {
    assert_eq!(keyhook_probe::msg_kind(WM_KEYDOWN), "DOWN");
    assert_eq!(keyhook_probe::msg_kind(WM_SYSKEYDOWN), "DOWN");
    assert_eq!(keyhook_probe::msg_kind(WM_KEYUP), "UP");
    assert_eq!(keyhook_probe::msg_kind(WM_SYSKEYUP), "UP");
    assert_eq!(keyhook_probe::msg_kind(0x0200), "?");
}

#[test]
fn launcher_hook_swallows_shell_shortcuts() {
    assert_eq!(classify(VK_F4, false, true, false, false), Some("ALT+F4"));
    assert_eq!(classify(VK_D, true, false, false, false), Some("WIN+D"));
    assert_eq!(classify(VK_TAB, true, false, false, false), Some("WIN+TAB"));
    assert_eq!(classify(VK_LWIN, true, false, false, false), Some("WIN"));
    assert_eq!(classify(VK_RWIN, true, false, false, false), Some("WIN"));
    assert_eq!(classify(VK_ESCAPE, false, false, true, true), Some("CTRL+SHIFT+ESC"));
    // The launcher's hook leaves Ctrl+Esc alone (the probe swallowed it).
    assert_eq!(classify(VK_ESCAPE, false, false, true, false), None);
}

#[test]
fn launcher_hook_swallows_remote_keys_with_any_modifier() {
    let keys = [
        (VK_VOLUME_UP, "VOL_UP"),
        (VK_VOLUME_DOWN, "VOL_DOWN"),
        (VK_VOLUME_MUTE, "VOL_MUTE"),
        (VK_SLEEP, "SLEEP"),
        (VK_BROWSER_HOME, "HOME"),
    ];
    for (vk, name) in keys {
        for mask in 0u8..16 {
            let got = classify(vk, mask & 1 != 0, mask & 2 != 0, mask & 4 != 0, mask & 8 != 0);
            assert_eq!(got, Some(name));
        }
    }
}

#[test]
fn launcher_hook_passes_ordinary_keys() {
    assert_eq!(classify(VK_RETURN, false, false, false, false), None);
    assert_eq!(classify(VK_RETURN, false, false, true, false), None);
    assert_eq!(classify(0x41, false, false, true, false), None);
    assert_eq!(classify(VK_ESCAPE, false, false, false, false), None);
    assert_eq!(classify(VK_F4, false, false, false, false), None);
    assert_eq!(classify(VK_HOME, false, false, false, false), None);
    assert_eq!(classify(VK_D, false, false, false, false), None);
}

#[test]
fn hook_verdicts() {
    assert!(matches!(
        hook_verdict(-1, WM_KEYDOWN, VK_VOLUME_UP, false, false, false, false),
        HookVerdict::Pass { log_unhandled: false }
    ));
    assert!(matches!(
        hook_verdict(0, WM_KEYDOWN, VK_VOLUME_UP, false, false, false, false),
        HookVerdict::Swallow { action: Some("VOL_UP") }
    ));
    assert!(matches!(
        hook_verdict(0, WM_KEYUP, VK_VOLUME_UP, false, false, false, false),
        HookVerdict::Swallow { action: None }
    ));
    assert!(matches!(
        hook_verdict(0, WM_SYSKEYDOWN, VK_F4, false, true, false, false),
        HookVerdict::Swallow { action: Some("ALT+F4") }
    ));
    assert!(matches!(
        hook_verdict(0, WM_KEYDOWN, VK_HOME, false, false, false, false),
        HookVerdict::Pass { log_unhandled: true }
    ));
    assert!(matches!(
        hook_verdict(0, WM_KEYDOWN, 0xb3, false, false, false, false),
        HookVerdict::Pass { log_unhandled: true }
    ));
    assert!(matches!(
        hook_verdict(0, WM_KEYUP, VK_HOME, false, false, false, false),
        HookVerdict::Pass { log_unhandled: false }
    ));
    assert!(matches!(
        hook_verdict(0, WM_KEYDOWN, VK_RETURN, false, false, false, false),
        HookVerdict::Pass { log_unhandled: false }
    ));
}

#[test]
fn shortcut_actions() {
    assert_eq!(key_action("VOL_UP"), KeyAction::VolumeUp);
    assert_eq!(key_action("VOL_DOWN"), KeyAction::VolumeDown);
    assert_eq!(key_action("VOL_MUTE"), KeyAction::ToggleMute);
    assert_eq!(key_action("SLEEP"), KeyAction::Sleep);
    assert_eq!(key_action("HOME"), KeyAction::ShowLauncher);
    assert_eq!(key_action("WIN+D"), KeyAction::Report);
    assert_eq!(key_action("ALT+F4"), KeyAction::Report);
}

#[test]
fn keyboard_keys_map_to_actions() {
    assert_eq!(map_key(0x26), Some(Action::Up));
    assert_eq!(map_key(0x57), Some(Action::Up));
    assert_eq!(map_key(0x28), Some(Action::Down));
    assert_eq!(map_key(0x53), Some(Action::Down));
    assert_eq!(map_key(0x25), Some(Action::Left));
    assert_eq!(map_key(0x41), Some(Action::Left));
    assert_eq!(map_key(0x27), Some(Action::Right));
    assert_eq!(map_key(0x44), Some(Action::Right));
    assert_eq!(map_key(VK_RETURN), Some(Action::Confirm));
    assert_eq!(map_key(0x08), Some(Action::Back));
    assert_eq!(map_key(VK_ESCAPE), Some(Action::Back));
    assert_eq!(map_key(0x70), Some(Action::Menu));
    assert_eq!(map_key(0x21), Some(Action::VolUp));
    assert_eq!(map_key(0x22), Some(Action::VolDown));
    assert_eq!(map_key(0x42), None);
    assert_eq!(map_key(VK_TAB), None);
}

#[test]
fn gamepad_buttons_map_to_actions() {
    assert_eq!(map_button(GamepadButton::DPadUp), Some(Action::Up));
    assert_eq!(map_button(GamepadButton::DPadDown), Some(Action::Down));
    assert_eq!(map_button(GamepadButton::DPadLeft), Some(Action::Left));
    assert_eq!(map_button(GamepadButton::DPadRight), Some(Action::Right));
    assert_eq!(map_button(GamepadButton::South), Some(Action::Confirm));
    assert_eq!(map_button(GamepadButton::East), Some(Action::Back));
    assert_eq!(map_button(GamepadButton::Start), Some(Action::Menu));
    assert_eq!(map_button(GamepadButton::RightTrigger2), Some(Action::VolUp));
    assert_eq!(map_button(GamepadButton::LeftTrigger2), Some(Action::VolDown));
    assert_eq!(map_button(GamepadButton::North), None);
    assert_eq!(map_button(GamepadButton::West), None);
    assert_eq!(map_button(GamepadButton::Select), None);
    assert_eq!(map_button(GamepadButton::Unknown), None);
}

#[test]
fn gamepad_actions_reachable_from_keyboard() {
    let buttons = [
        GamepadButton::DPadUp,
        GamepadButton::DPadDown,
        GamepadButton::DPadLeft,
        GamepadButton::DPadRight,
        GamepadButton::South,
        GamepadButton::East,
        GamepadButton::Start,
        GamepadButton::RightTrigger2,
        GamepadButton::LeftTrigger2,
    ];
    for b in buttons {
        let a = map_button(b).unwrap();
        assert!((0u16..=0xff).any(|vk| map_key(vk) == Some(a)));
    }
}

#[test]
fn action_names() {
    assert_eq!(Action::Up.as_str(), "Up");
    assert_eq!(Action::Down.as_str(), "Down");
    assert_eq!(Action::Left.as_str(), "Left");
    assert_eq!(Action::Right.as_str(), "Right");
    assert_eq!(Action::Confirm.as_str(), "Ok");
    assert_eq!(Action::Back.as_str(), "Back");
    assert_eq!(Action::Menu.as_str(), "Menu");
    assert_eq!(Action::VolUp.as_str(), "VolUp");
    assert_eq!(Action::VolDown.as_str(), "VolDown");
    assert_eq!(Action::Power.as_str(), "Power");
}
