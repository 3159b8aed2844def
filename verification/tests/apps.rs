use winnas_launcher::config::{
    add_app, increment_launch_count, move_to_end, move_to_front, remove_app, rename_app, sort_apps,
    AppItem,
};

fn item(name: &str, exe: &str, launch_count: u32, pinned: bool, pinned_end: bool) -> AppItem {
    AppItem {
        name: name.to_string(),
        exe: exe.to_string(),
        icon: String::new(),
        launch_count,
        pinned,
        pinned_end,
    }
}

fn names(apps: &[AppItem]) -> Vec<String> {
    apps.iter().map(|a| a.name.clone()).collect()
}

fn sample() -> Vec<AppItem> {
    vec![
        item("Kodi", "C:\\kodi.exe", 1, false, false),
        item("Steam", "C:\\steam.exe", 5, false, false),
        item("Chrome", "C:\\chrome.exe", 0, true, false),
        item("Notepad", "C:\\notepad.exe", 9, false, true),
        item("Plex", "C:\\plex.exe", 5, false, false),
    ]
}

#[test]
fn sort_puts_pinned_first_end_last_and_counts_descending() {
    let mut apps = sample();
    sort_apps(&mut apps);
    assert_eq!(names(&apps), vec!["Chrome", "Plex", "Steam", "Kodi", "Notepad"]);
}

#[test]
fn sort_breaks_count_ties_by_name_bytes() {
    let mut apps = vec![
        item("b", "b.exe", 2, false, false),
        item("B", "B.exe", 2, false, false),
        item("a", "a.exe", 2, false, false),
        item("中文", "z.exe", 2, false, false),
    ];
    sort_apps(&mut apps);
    assert_eq!(names(&apps), vec!["B", "a", "b", "中文"]);
}

#[test]
fn sort_keeps_equal_items_in_order() {
    let mut apps = vec![
        item("Same", "first.exe", 3, false, false),
        item("Same", "second.exe", 3, false, false),
        item("Pin", "p1.exe", 0, true, false),
        item("Pin", "p2.exe", 7, true, false),
        item("End", "e1.exe", 0, false, true),
        item("End", "e2.exe", 0, true, true),
    ];
    sort_apps(&mut apps);
    let exes: Vec<&str> = apps.iter().map(|a| a.exe.as_str()).collect();
    assert_eq!(exes, vec!["p1.exe", "p2.exe", "first.exe", "second.exe", "e1.exe", "e2.exe"]);
}

#[test]
fn sort_is_idempotent() {
    let mut apps = sample();
    sort_apps(&mut apps);
    let once = names(&apps);
    sort_apps(&mut apps);
    assert_eq!(names(&apps), once);
}

#[test]
fn sort_of_empty_list() {
    let mut apps: Vec<AppItem> = Vec::new();
    sort_apps(&mut apps);
    assert!(apps.is_empty());
}

#[test]
fn increment_counts_and_reorders() {
    let mut apps = sample();
    sort_apps(&mut apps);
    assert!(increment_launch_count(&mut apps, "C:\\kodi.exe"));
    assert!(increment_launch_count(&mut apps, "C:\\kodi.exe"));
    assert!(increment_launch_count(&mut apps, "C:\\kodi.exe"));
    assert!(increment_launch_count(&mut apps, "C:\\kodi.exe"));
    assert!(increment_launch_count(&mut apps, "C:\\kodi.exe"));
    let kodi = apps.iter().find(|a| a.exe == "C:\\kodi.exe").unwrap();
    assert_eq!(kodi.launch_count, 6);
    assert_eq!(names(&apps), vec!["Chrome", "Kodi", "Plex", "Steam", "Notepad"]);
}

#[test]
fn increment_of_unknown_exe_changes_nothing() {
    let mut apps = sample();
    assert!(!increment_launch_count(&mut apps, "C:\\missing.exe"));
    assert_eq!(names(&apps), names(&sample()));
}

#[test]
fn increment_matches_exact_path() {
    let mut apps = sample();
    assert!(!increment_launch_count(&mut apps, "c:\\KODI.exe"));
}

#[test]
fn move_to_front_pins_item_first() {
    let mut apps = sample();
    sort_apps(&mut apps);
    assert!(move_to_front(&mut apps, "C:\\notepad.exe"));
    assert_eq!(apps[0].name, "Notepad");
    assert!(apps[0].pinned);
    assert!(!apps[0].pinned_end);
    assert_eq!(names(&apps), vec!["Notepad", "Chrome", "Plex", "Steam", "Kodi"]);
}

#[test]
fn move_to_end_pins_item_last() {
    let mut apps = sample();
    sort_apps(&mut apps);
    assert!(move_to_end(&mut apps, "C:\\chrome.exe"));
    let last = apps.last().unwrap();
    assert_eq!(last.name, "Chrome");
    assert!(last.pinned_end);
    assert!(!last.pinned);
    assert_eq!(names(&apps), vec!["Plex", "Steam", "Kodi", "Notepad", "Chrome"]);
}

#[test]
fn moves_of_unknown_exe_change_nothing() {
    let mut apps = sample();
    assert!(!move_to_front(&mut apps, "nope.exe"));
    assert!(!move_to_end(&mut apps, "nope.exe"));
    assert_eq!(names(&apps), names(&sample()));
}

#[test]
fn remove_drops_every_item_of_the_exe() {
    let mut apps = sample();
    apps.push(item("Kodi again", "C:\\kodi.exe", 0, false, false));
    remove_app(&mut apps, "C:\\kodi.exe");
    assert!(apps.iter().all(|a| a.exe != "C:\\kodi.exe"));
    assert_eq!(names(&apps), vec!["Chrome", "Plex", "Steam", "Notepad"]);
}

#[test]
fn remove_of_unknown_exe_only_sorts() {
    let mut apps = sample();
    remove_app(&mut apps, "nope.exe");
    assert_eq!(names(&apps), vec!["Chrome", "Plex", "Steam", "Kodi", "Notepad"]);
}

#[test]
fn rename_changes_name_and_order() {
    let mut apps = sample();
    sort_apps(&mut apps);
    assert!(rename_app(&mut apps, "C:\\steam.exe", "Big Picture"));
    assert_eq!(names(&apps), vec!["Chrome", "Big Picture", "Plex", "Kodi", "Notepad"]);
    assert!(!rename_app(&mut apps, "nope.exe", "X"));
}

#[test]
fn add_appends_and_stores_in_grid_order() {
    let mut apps = sample();
    sort_apps(&mut apps);
    let stored = add_app(&mut apps, item("VLC", "C:\\vlc.exe", 0, false, false));
    // The list handed back has the new item last; the stored one is in grid order.
    assert_eq!(names(&apps), vec!["Chrome", "Plex", "Steam", "Kodi", "Notepad", "VLC"]);
    assert_eq!(names(&stored), vec!["Chrome", "Plex", "Steam", "Kodi", "VLC", "Notepad"]);
}

#[test]
fn clone_keeps_fields() {
    let a = item("Kodi", "C:\\kodi.exe", 4, true, false);
    let b = a.clone();
    assert_eq!(b.name, "Kodi");
    assert_eq!(b.exe, "C:\\kodi.exe");
    assert_eq!(b.launch_count, 4);
    assert!(b.pinned);
    assert!(!b.pinned_end);
}
