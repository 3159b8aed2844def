use winnas_launcher::process::{
    diagnostic_pids, exe_file_name, exe_stem, family_processes, file_name, find_running_process,
    foreground_step, is_exe, is_lnk, launch_plan, normalize_path, quoted_command_line,
    resolve_target, shell_handoff_pid, window_score, ActivationPoll, ForegroundStep, LaunchPlan,
    MainWindowSearch, PollLog, RunningProcess, POLL_ROUNDS, TITLE_BONUS,
};

#[test]
fn file_names_of_windows_paths() {
    assert_eq!(file_name("C:\\Program Files\\App.EXE").as_deref(), Some("App.EXE"));
    assert_eq!(file_name("C:/games/steam.exe").as_deref(), Some("steam.exe"));
    assert_eq!(file_name("steam.exe").as_deref(), Some("steam.exe"));
    assert_eq!(file_name("C:\\tools\\").as_deref(), Some("tools"));
    assert_eq!(file_name("C:\\tools\\.").as_deref(), Some("tools"));
    assert_eq!(file_name("C:app.exe").as_deref(), Some("app.exe"));
    assert_eq!(file_name("C:\\tools\\.."), None);
    assert_eq!(file_name("C:"), None);
    assert_eq!(file_name("C:\\"), None);
    assert_eq!(file_name(""), None);
}

#[test]
fn file_names_after_path_prefixes() {
    assert_eq!(file_name("\\\\server\\share"), None);
    assert_eq!(file_name("\\\\server\\share\\"), None);
    assert_eq!(file_name("\\\\server\\share\\app.exe").as_deref(), Some("app.exe"));
    assert_eq!(file_name("//server/share/app.exe").as_deref(), Some("app.exe"));
    assert_eq!(file_name("\\\\server").as_deref(), Some("server"));
    assert_eq!(file_name("\\\\?\\C:"), None);
    assert_eq!(file_name("\\\\?\\C:\\"), None);
    assert_eq!(file_name("\\\\?\\C:\\Games\\Kodi.exe").as_deref(), Some("Kodi.exe"));
    assert_eq!(file_name("\\\\?\\C:\\a/b").as_deref(), Some("a/b"));
    assert_eq!(file_name("\\\\?\\C:\\x\\."), None);
    assert_eq!(file_name("\\\\?\\UNC\\srv\\shr"), None);
    assert_eq!(file_name("\\\\?\\UNC\\srv\\shr\\f.txt").as_deref(), Some("f.txt"));
    assert_eq!(file_name("\\\\?\\pics"), None);
    assert_eq!(file_name("\\\\?\\pics\\cat.png").as_deref(), Some("cat.png"));
    assert_eq!(file_name("\\\\.\\COM1"), None);
    assert_eq!(file_name("\\\\.\\pipe\\x").as_deref(), Some("x"));
    assert_eq!(exe_file_name("\\\\?\\C:\\Games\\Kodi.EXE"), "kodi.exe");
}

#[test]
fn normalizing_twice_changes_nothing() {
    for p in ["\\\\?\\\\\\?\\C:\\Program Files\\App.exe", "C:\\X", "", "\\\\?\\"] {
        let once = normalize_path(p);
        assert_eq!(normalize_path(&once), once);
    }
}

#[test]
fn exe_file_name_is_lowercased() {
    assert_eq!(exe_file_name("C:\\Program Files\\App.EXE"), "app.exe");
    assert_eq!(exe_file_name("D:\\Playnite\\Playnite.DesktopApp.exe"), "playnite.desktopapp.exe");
    assert_eq!(exe_file_name("C:"), "");
    assert_eq!(exe_file_name("C:\\.."), "");
}

#[test]
fn shortcut_and_executable_suffixes() {
    assert!(is_lnk("C:\\Users\\x\\Desktop\\Kodi.LNK"));
    assert!(!is_lnk("C:\\kodi.exe"));
    assert!(is_exe("C:\\KODI.Exe"));
    assert!(!is_exe("C:\\kodi.exe.bak"));
    assert!(!is_exe("exe"));
}

#[test]
fn targets_resolve_only_for_shortcuts() {
    assert_eq!(resolve_target("C:\\a\\Kodi.lnk", Some("C:\\Kodi\\kodi.exe")), "C:\\Kodi\\kodi.exe");
    assert_eq!(resolve_target("C:\\a\\Kodi.lnk", None), "C:\\a\\Kodi.lnk");
    assert_eq!(resolve_target("C:\\kodi.exe", Some("C:\\other.exe")), "C:\\kodi.exe");
}

#[test]
fn paths_normalized_for_comparison() {
    assert_eq!(normalize_path("\\\\?\\C:\\Program Files\\App.exe"), "c:\\program files\\app.exe");
    assert_eq!(normalize_path("\\\\?\\\\\\?\\D:\\X"), "d:\\x");
    assert_eq!(normalize_path("C:\\App.exe"), "c:\\app.exe");
}

#[test]
fn launch_plans() {
    match launch_plan("C:\\a\\Kodi.lnk", "C:\\Kodi\\Kodi.exe", Some(44)) {
        LaunchPlan::ActivateRunning { pid, exe_name } => {
            assert_eq!(pid, 44);
            assert_eq!(exe_name, "kodi.exe");
        }
        _ => panic!("expected activation"),
    }
    match launch_plan("C:\\a\\Kodi.lnk", "C:\\Kodi\\Kodi.exe", None) {
        LaunchPlan::StartExe { exe } => assert_eq!(exe, "C:\\Kodi\\Kodi.exe"),
        _ => panic!("expected start"),
    }
    match launch_plan("C:\\a\\Site.lnk", "C:\\a\\Site.lnk", None) {
        LaunchPlan::ShellOpen { path } => assert_eq!(path, "C:\\a\\Site.lnk"),
        _ => panic!("expected shell open"),
    }
    match launch_plan("C:\\a\\run.bat.lnk", "C:\\a\\run.bat", Some(3)) {
        LaunchPlan::ShellOpen { path } => assert_eq!(path, "C:\\a\\run.bat.lnk"),
        _ => panic!("expected shell open"),
    }
    match launch_plan("C:\\steam.exe", "C:\\steam.exe", None) {
        LaunchPlan::StartExe { exe } => assert_eq!(exe, "C:\\steam.exe"),
        _ => panic!("expected start"),
    }
}

#[test]
fn shell_handoff() {
    assert_eq!(shell_handoff_pid("C:\\x\\App.exe", Some(9)), Some(9));
    assert_eq!(shell_handoff_pid("C:\\x\\App.exe", None), None);
    assert_eq!(shell_handoff_pid("C:\\x\\page.url", Some(9)), None);
}

fn proc_entry(pid: u32, name: &str, image: Option<&str>) -> RunningProcess {
    RunningProcess { pid, name: name.to_string(), image_path: image.map(|s| s.to_string()) }
}

#[test]
fn running_instance_found_by_name_and_path() {
    let procs = vec![
        proc_entry(10, "explorer.exe", Some("C:\\Windows\\explorer.exe")),
        proc_entry(11, "Kodi.exe", Some("\\\\?\\D:\\Other\\kodi.exe")),
        proc_entry(12, "KODI.EXE", Some("\\\\?\\C:\\Program Files\\Kodi\\kodi.exe")),
        proc_entry(13, "kodi.exe", None),
    ];
    let exe = "C:\\Program Files\\Kodi\\kodi.exe";
    let norm = normalize_path(exe);
    assert_eq!(find_running_process(exe, &norm, &procs), Some(12));
    let only_unknown = vec![proc_entry(13, "kodi.exe", None)];
    assert_eq!(find_running_process(exe, &norm, &only_unknown), Some(13));
    assert_eq!(find_running_process("C:\\x\\vlc.exe", "c:\\x\\vlc.exe", &procs), None);
    assert_eq!(find_running_process("C:", "c:", &procs), None);
}

#[test]
fn window_scores() {
    assert_eq!(window_score(None, true), 0);
    assert_eq!(window_score(Some((0, 0, 0, 100)), true), 0);
    assert_eq!(window_score(Some((10, 10, 5, 50)), true), 0);
    assert_eq!(window_score(Some((0, 0, 1920, 1080)), false), 1920 * 1080);
    assert_eq!(window_score(Some((0, 0, 300, 200)), true), 60_000 + TITLE_BONUS);
    assert_eq!(window_score(Some((-100, -50, 100, 50)), false), 20_000);
    // A titled window outranks any untitled one of at most full-HD size.
    assert!(window_score(Some((0, 0, 1, 1)), true) > window_score(Some((0, 0, 1920, 1080)), false));
}

#[test]
fn main_window_search_keeps_best_scored() {
    let mut search = MainWindowSearch::new(50, "Playnite.DesktopApp.exe");
    assert!(!search.needs_image_path(50));
    assert!(search.needs_image_path(51));
    assert!(search.belongs(50, None));
    assert!(search.belongs(51, Some("C:\\Playnite\\playnite.desktopapp.exe")));
    assert!(!search.belongs(51, Some("C:\\Playnite\\other.exe")));
    assert!(!search.belongs(51, None));
    assert_eq!(search.result(), None);
    search.consider(1000, 5);
    search.consider(2000, 50);
    search.consider(3000, 50);
    search.consider(4000, 7);
    assert_eq!(search.result(), Some(2000));
    let by_pid = MainWindowSearch::new(50, "");
    assert!(!by_pid.needs_image_path(51));
    assert!(!by_pid.belongs(51, Some("C:\\x\\.exe")));
}

#[test]
fn activation_polling() {
    let mut poll = ActivationPoll::new();
    let s0 = poll.step(0, None, 1);
    assert_eq!(s0.activate, None);
    assert_eq!(s0.log, PollLog::Diagnose);
    let s1 = poll.step(1, Some(500), 1);
    assert_eq!(s1.activate, None);
    assert_eq!(s1.log, PollLog::Quiet);
    let s3 = poll.step(3, Some(500), 1);
    assert_eq!(s3.activate, Some(500));
    let s4 = poll.step(4, Some(500), 500);
    assert_eq!(s4.activate, None);
    let s5 = poll.step(5, Some(600), 500);
    assert_eq!(s5.activate, None);
    let s6 = poll.step(6, Some(600), 500);
    assert_eq!(s6.activate, Some(600));
    let s20 = poll.step(20, Some(600), 600);
    assert_eq!(s20.activate, None);
    assert_eq!(s20.log, PollLog::Status);
    let s40 = poll.step(40, None, 600);
    assert_eq!(s40.log, PollLog::Waiting);
    assert_eq!(poll.finish(), Some(600));
    assert_eq!(ActivationPoll::new().finish(), None);
    assert_eq!(POLL_ROUNDS, 300);
}

#[test]
fn foreground_retries() {
    assert_eq!(foreground_step(0, true), ForegroundStep::Taken);
    assert_eq!(foreground_step(0, false), ForegroundStep::NudgeAndRetry);
    assert_eq!(foreground_step(1, false), ForegroundStep::NudgeAndRetry);
    assert_eq!(foreground_step(2, false), ForegroundStep::NudgeAndGiveUp);
    assert_eq!(foreground_step(2, true), ForegroundStep::Taken);
}

#[test]
fn command_line_quotes_path() {
    assert_eq!(quoted_command_line("C:\\Program Files\\App.exe"), "\"C:\\Program Files\\App.exe\"");
}

#[test]
fn diagnostics_collect_related_processes() {
    let procs = vec![
        (7u32, "Steam.exe".to_string()),
        (8u32, "steamwebhelper.exe".to_string()),
        (9u32, "STEAM.EXE".to_string()),
        (7u32, "steam.exe".to_string()),
        (10u32, "explorer.exe".to_string()),
    ];
    assert_eq!(diagnostic_pids(3, "steam.exe", &procs), vec![3, 7, 9]);
    assert_eq!(diagnostic_pids(3, "", &procs), vec![3]);
    assert_eq!(exe_stem("steam.exe"), "steam");
    assert_eq!(exe_stem("playnite.desktopapp.exe"), "playnite");
    assert_eq!(exe_stem("noext"), "noext");
    let family = family_processes("steam", &procs);
    let pids: Vec<u32> = family.iter().map(|p| p.0).collect();
    assert_eq!(pids, vec![7, 8, 9, 7]);
    assert_eq!(family[2].1, "steam.exe");
}
