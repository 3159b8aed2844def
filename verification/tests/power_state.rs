use winnas_launcher::autostart::{
    apply_autostart_default, disable_args, enable_args, record_autostart_default,
};
use winnas_launcher::focus::{
    enter_maintenance, exit_maintenance, init, on_foreground, reclaim, show_launcher,
    watchdog_tick, Pinning,
};
use winnas_launcher::power::{
    parse_power_button_action, power_button_query_args, power_button_write_commands,
    PowerButtonMemory, ACTION_SLEEP,
};
use winnas_launcher::settings::{
    clear_menu_cache, init_menu, record_autostart, set_language, Settings,
};
use winnas_launcher::state::LauncherState;
use winnas_launcher::system_state::{
    check_self_heal, mark_clean, mark_running, restore_system, StateSnapshot,
};

const POWERCFG_OUTPUT: &str = "Power Scheme GUID: 381b4222-f694-41f0-9685-ff5bb260df2e  (Balanced)\r\n  \
Subgroup GUID: 4f971e89-eebd-4455-a8de-9e59040e7347  (Power buttons and lid)\r\n    \
Power Setting GUID: 7648efa3-dd9c-4e3e-b566-50f929386280  (Power button action)\r\n      \
Possible Setting Index: 000\r\n      \
Possible Setting Friendly Name: Do nothing\r\n      \
Possible Setting Index: 001\r\n      \
Possible Setting Friendly Name: Sleep\r\n    \
Current AC Power Setting Index: 0x00000003\r\n    \
Current DC Power Setting Index: 0x00000001\r\n\r\n";

#[test]
fn powercfg_output_gives_ac_and_dc() {
    assert_eq!(parse_power_button_action(POWERCFG_OUTPUT), Some((3, 1)));
}

#[test]
fn powercfg_values_need_two_lines() {
    assert_eq!(parse_power_button_action("Current AC Power Setting Index: 0x00000002\n"), None);
    assert_eq!(parse_power_button_action(""), None);
    assert_eq!(parse_power_button_action("no values here\nat all"), None);
}

#[test]
fn powercfg_value_parsing_edge_cases() {
    // First "0x" of a line, hex digits up to the first non-digit, any case.
    assert_eq!(parse_power_button_action("a 0x1F0x2\nb 0xaBc z"), Some((0x1f0, 0xabc)));
    // Leading zeros do not count towards overflow.
    assert_eq!(parse_power_button_action("0x0000000000005\n0x00"), Some((5, 0)));
    // A value that overflows u32, or "0x" without digits, is skipped.
    assert_eq!(
        parse_power_button_action("0x100000000\n0x\n0x00000004\n0xffffffff"),
        Some((4, 0xffff_ffff))
    );
    // Only the first two values count.
    assert_eq!(parse_power_button_action("0x1\n0x2\n0x3"), Some((1, 2)));
}

#[test]
fn powercfg_commands() {
    assert_eq!(
        power_button_query_args(),
        vec!["/q", "SCHEME_CURRENT", "SUB_BUTTONS", "PBUTTONACTION"]
    );
    let cmds = power_button_write_commands(3, 10);
    assert_eq!(cmds.len(), 3);
    assert_eq!(
        cmds[0],
        vec!["/setacvalueindex", "SCHEME_CURRENT", "SUB_BUTTONS", "PBUTTONACTION", "3"]
    );
    assert_eq!(
        cmds[1],
        vec!["/setdcvalueindex", "SCHEME_CURRENT", "SUB_BUTTONS", "PBUTTONACTION", "10"]
    );
    assert_eq!(cmds[2], vec!["/setactive", "SCHEME_CURRENT"]);
    let big = power_button_write_commands(0, 4294967295);
    assert_eq!(big[0][4], "0");
    assert_eq!(big[1][4], "4294967295");
}

#[test]
fn power_button_restores_first_reading() {
    let mut mem = PowerButtonMemory::new();
    assert_eq!(mem.restore_power_button(), None);
    assert_eq!(mem.set_power_button_sleep(None), None);
    assert_eq!(mem.restore_power_button(), None);
    assert_eq!(mem.set_power_button_sleep(Some((3, 0))), Some((ACTION_SLEEP, ACTION_SLEEP)));
    assert_eq!(mem.set_power_button_sleep(Some((1, 1))), Some((1, 1)));
    assert_eq!(mem.restore_power_button(), Some((3, 0)));
}

#[test]
fn autostart_registry_arguments() {
    assert_eq!(
        enable_args("C:\\Apps\\WinNas Launcher.exe").unwrap(),
        vec![
            "add",
            "HKCU\\Software\\Microsoft\\Windows\\CurrentVersion\\Run",
            "/v",
            "WinNasLauncher",
            "/t",
            "REG_SZ",
            "/d",
            "C:\\Apps\\WinNas Launcher.exe",
            "/f",
        ]
    );
    assert_eq!(enable_args(""), None);
    assert_eq!(
        disable_args(),
        vec![
            "delete",
            "HKCU\\Software\\Microsoft\\Windows\\CurrentVersion\\Run",
            "/v",
            "WinNasLauncher",
            "/f",
        ]
    );
}

#[test]
fn autostart_default_applies_once_to_installed_edition() {
    let mut s = Settings::default();
    assert!(!apply_autostart_default(true, &s));
    assert!(apply_autostart_default(false, &s));
    record_autostart_default(&mut s, false);
    assert!(!s.autostart);
    assert!(s.autostart_initialized);
    assert!(!apply_autostart_default(false, &s));
    let mut t = Settings::default();
    record_autostart_default(&mut t, true);
    assert!(t.autostart);
    assert!(!apply_autostart_default(false, &t));
}

#[test]
fn autostart_default_respects_user_choice() {
    let mut s = Settings::default();
    assert!(!record_autostart(&mut s, true, false));
    assert!(!s.autostart_initialized);
    assert!(record_autostart(&mut s, false, true));
    assert!(!s.autostart);
    assert!(s.autostart_initialized);
    assert!(!apply_autostart_default(false, &s));
}

#[test]
fn default_settings() {
    let s = Settings::default();
    assert!(!s.autostart);
    assert!(!s.autostart_initialized);
    assert!(s.exit_confirm);
    assert!(!s.initialized);
    assert_eq!(s.menu_mode, "manual");
    assert_eq!(s.language, "");
    assert!(s.language_auto);
}

#[test]
fn language_choice_is_validated() {
    let mut s = Settings::default();
    assert!(set_language(&mut s, "ja"));
    assert_eq!(s.language, "ja");
    assert!(!s.language_auto);
    assert!(!set_language(&mut s, "jp"));
    assert_eq!(s.language, "ja");
}

#[test]
fn onboarding_and_cache_clearing() {
    let mut s = Settings::default();
    assert!(init_menu(&mut s, "all"));
    assert!(s.initialized);
    assert_eq!(s.menu_mode, "all");
    assert!(!init_menu(&mut s, "manual"));
    assert_eq!(s.menu_mode, "manual");
    assert!(init_menu(&mut s, "all"));
    clear_menu_cache(&mut s);
    assert!(!s.initialized);
    assert_eq!(s.menu_mode, "manual");
}

#[test]
fn launch_and_exit_counting() {
    let mut st = LauncherState::new();
    assert!(!st.app_running());
    assert_eq!(st.running_count(), 0);
    st.on_app_launched();
    st.on_app_launched();
    assert_eq!(st.running_count(), 2);
    assert!(st.app_running());
    assert!(!st.on_app_exited());
    assert!(st.app_running());
    assert!(st.on_app_exited());
    assert!(!st.app_running());
}

#[test]
fn state_accessors() {
    let mut st = LauncherState::new();
    assert_eq!(st.inc_running(), 1);
    assert_eq!(st.inc_running(), 2);
    assert_eq!(st.dec_running(), 1);
    st.set_app_running(true);
    assert!(st.app_running());
    st.set_launcher_hwnd(42);
    assert_eq!(st.launcher_hwnd(), 42);
    st.set_foreground_hwnd(7);
    assert_eq!(st.foreground_hwnd(), 7);
    st.set_maintenance(true);
    assert!(st.maintenance());
}

#[test]
fn focus_pins_launcher_only_while_it_has_focus() {
    let mut st = LauncherState::new();
    assert_eq!(on_foreground(&mut st, 5), None);
    init(&mut st, 100);
    assert_eq!(on_foreground(&mut st, 100), Some(Pinning::Topmost));
    assert_eq!(on_foreground(&mut st, 200), Some(Pinning::NotTopmost));
    assert_eq!(st.foreground_hwnd(), 200);
}

#[test]
fn focus_reclaim_and_watchdog() {
    let mut st = LauncherState::new();
    assert_eq!(reclaim(&st), None);
    init(&mut st, 100);
    assert_eq!(reclaim(&st), Some(100));
    assert_eq!(show_launcher(&st), Some(100));
    assert_eq!(watchdog_tick(&st), None);
    on_foreground(&mut st, 300);
    assert_eq!(watchdog_tick(&st), Some(100));
    st.on_app_launched();
    assert_eq!(watchdog_tick(&st), None);
    assert_eq!(show_launcher(&st), Some(100));
}

#[test]
fn maintenance_mode_leaves_desktop_alone() {
    let mut st = LauncherState::new();
    init(&mut st, 100);
    assert_eq!(enter_maintenance(&mut st), Some(100));
    assert_eq!(on_foreground(&mut st, 100), None);
    on_foreground(&mut st, 300);
    assert_eq!(watchdog_tick(&st), None);
    assert_eq!(reclaim(&st), None);
    assert_eq!(exit_maintenance(&mut st), Some(100));
    assert_eq!(watchdog_tick(&st), Some(100));
    let mut fresh = LauncherState::new();
    assert_eq!(enter_maintenance(&mut fresh), None);
    assert_eq!(exit_maintenance(&mut fresh), None);
}

#[test]
fn snapshot_detects_unclean_exit() {
    let mut snap = StateSnapshot::default();
    assert!(!check_self_heal(&snap));
    mark_running(&mut snap);
    assert!(check_self_heal(&snap));
    restore_system(&mut snap);
    assert!(!check_self_heal(&snap));
    mark_running(&mut snap);
    snap.taskbar_autohide = Some(1);
    mark_clean(&mut snap);
    assert!(!check_self_heal(&snap));
    assert_eq!(snap.taskbar_autohide, Some(1));
    assert_eq!(
        StateSnapshot::default(),
        StateSnapshot { running: false, taskbar_autohide: None, desktop_icons_visible: None }
    );
}
