use winnas_launcher::scanner::{
    is_excluded_name, new_item, scan, scan_full, shortcut_name, uninstall_exe, FoundShortcut,
    ScanCollector, UninstallEntry,
};

fn shortcut(file_name: &str, path: &str) -> FoundShortcut {
    FoundShortcut { file_name: file_name.to_string(), path: path.to_string(), icon: String::new() }
}

fn entry(name: &str, icon_value: &str) -> UninstallEntry {
    UninstallEntry {
        display_name: name.to_string(),
        display_icon: icon_value.to_string(),
        icon: "data:image/png;base64,AA==".to_string(),
    }
}

#[test]
fn shortcut_names() {
    assert_eq!(shortcut_name("Kodi.lnk").as_deref(), Some("Kodi"));
    assert_eq!(shortcut_name("Foo.LNK").as_deref(), Some("Foo"));
    assert_eq!(shortcut_name("My.Game.lnk").as_deref(), Some("My.Game"));
    assert_eq!(shortcut_name("Kodi.url"), None);
    assert_eq!(shortcut_name("Kodi"), None);
    assert_eq!(shortcut_name(".lnk"), None);
    assert_eq!(shortcut_name(".."), None);
}

#[test]
fn shortcut_filters() {
    assert_eq!(shortcut_name("Uninstall Foo.lnk"), None);
    assert_eq!(shortcut_name("Foo Help.lnk"), None);
    assert_eq!(shortcut_name("REPAIR Foo.lnk"), None);
    assert_eq!(shortcut_name("卸载 Foo.lnk"), None);
    assert_eq!(shortcut_name("修复工具.lnk"), None);
    assert_eq!(shortcut_name("帮助.lnk"), None);
    assert_eq!(shortcut_name("Helper.lnk"), None);
    assert!(is_excluded_name("uninstall foo"));
    assert!(!is_excluded_name("kodi"));
}

#[test]
fn uninstall_display_icons() {
    assert_eq!(uninstall_exe("C:\\a\\app.exe,0").as_deref(), Some("C:\\a\\app.exe"));
    assert_eq!(uninstall_exe(" C:\\a\\app.exe ,0").as_deref(), Some("C:\\a\\app.exe"));
    assert_eq!(uninstall_exe("C:\\A\\APP.EXE").as_deref(), Some("C:\\A\\APP.EXE"));
    assert_eq!(uninstall_exe("C:\\a\\app.ico"), None);
    assert_eq!(uninstall_exe("C:\\a\\app.exe,0,1").as_deref(), Some("C:\\a\\app.exe"));
    assert_eq!(uninstall_exe(""), None);
    assert_eq!(uninstall_exe(",C:\\a\\app.exe"), None);
}

#[test]
fn start_menu_scan_keeps_first_of_each_name() {
    let found = vec![
        shortcut("Kodi.lnk", "C:\\sm\\Kodi.lnk"),
        shortcut("Uninstall Kodi.lnk", "C:\\sm\\Uninstall Kodi.lnk"),
        shortcut("readme.txt", "C:\\sm\\readme.txt"),
        shortcut("Steam.lnk", "C:\\sm\\Steam.lnk"),
        shortcut("Kodi.lnk", "C:\\other\\Kodi.lnk"),
    ];
    let apps = scan(&found);
    let names: Vec<&str> = apps.iter().map(|a| a.name.as_str()).collect();
    assert_eq!(names, vec!["Kodi", "Steam"]);
    assert_eq!(apps[0].exe, "C:\\sm\\Kodi.lnk");
    assert_eq!(apps[0].launch_count, 0);
    assert!(!apps[0].pinned && !apps[0].pinned_end);
    assert!(scan(&Vec::new()).is_empty());
}

#[test]
fn full_scan_lists_uninstall_entries_first() {
    let entries = vec![
        entry("Steam", "C:\\Steam\\steam.exe,0"),
        entry("", "C:\\x\\x.exe"),
        entry("Driver", "C:\\drv\\drv.ico"),
        entry("Steam", "C:\\Steam2\\steam.exe"),
    ];
    let found = vec![shortcut("Steam.lnk", "C:\\sm\\Steam.lnk"), shortcut("Kodi.lnk", "C:\\sm\\Kodi.lnk")];
    let apps = scan_full(&entries, &found);
    let names: Vec<&str> = apps.iter().map(|a| a.name.as_str()).collect();
    assert_eq!(names, vec!["Steam", "Kodi"]);
    assert_eq!(apps[0].exe, "C:\\Steam\\steam.exe");
    assert_eq!(apps[0].icon, "data:image/png;base64,AA==");
    assert_eq!(apps[1].exe, "C:\\sm\\Kodi.lnk");
}

#[test]
fn collector_deduplicates_by_name() {
    let mut c = ScanCollector::new();
    assert!(c.claim("Kodi"));
    c.push(new_item("Kodi".to_string(), "k.exe".to_string(), String::new()));
    assert!(!c.claim("Kodi"));
    assert!(c.claim("kodi"));
    let apps = c.into_apps();
    assert_eq!(apps.len(), 1);
    assert_eq!(apps[0].exe, "k.exe");
}

#[test]
fn display_icon_trims_unicode_whitespace() {
    assert_eq!(
        uninstall_exe("\u{3000} C:\\a\\app.exe\u{00A0}\t,0").as_deref(),
        Some("C:\\a\\app.exe")
    );
    assert_eq!(uninstall_exe("\u{200B}C:\\a\\app.exe"), Some("\u{200B}C:\\a\\app.exe".to_string()));
}
