use base64::Engine;
use winnas_launcher::icon::{bgra_to_rgba, icon_data_url, icon_png, png_data_url};
use winnas_launcher::log::{console_line, format_line, info, log_file_name, todays_log_file_name};
use winnas_launcher::paths::{
    apps_path, conf_dir, config_path, join, log_dir, powercfg_path, snapshot_path,
};
use winnas_launcher::system::{reboot_args, shutdown_args};

#[test]
fn bgra_pixels_become_rgba() {
    let bgra = [1u8, 2, 3, 4, 10, 20, 30, 40];
    assert_eq!(bgra_to_rgba(&bgra), vec![3, 2, 1, 4, 30, 20, 10, 40]);
    assert!(bgra_to_rgba(&[]).is_empty());
}

#[test]
fn empty_bitmap_has_no_icon() {
    assert_eq!(icon_data_url(0, 5, &[]), None);
    assert_eq!(icon_data_url(5, 0, &[]), None);
    assert!(icon_png(0, 0, &[]).is_none());
}

#[test]
fn icon_png_encodes_rgba_pixels() {
    let bgra = [0u8, 0, 255, 255, 255, 0, 0, 128];
    let png = icon_png(2, 1, &bgra).unwrap();
    let decoded = image::load_from_memory_with_format(&png, image::ImageFormat::Png).unwrap();
    let rgba = decoded.to_rgba8();
    assert_eq!(rgba.width(), 2);
    assert_eq!(rgba.height(), 1);
    assert_eq!(rgba.into_raw(), vec![255, 0, 0, 255, 0, 0, 255, 128]);
}

#[test]
fn icon_data_url_is_base64_png() {
    let bgra = [9u8, 8, 7, 6, 5, 4, 3, 2, 1, 0, 11, 12, 13, 14, 15, 16];
    let url = icon_data_url(2, 2, &bgra).unwrap();
    let png = icon_png(2, 2, &bgra).unwrap();
    let expected = format!(
        "data:image/png;base64,{}",
        base64::engine::general_purpose::STANDARD.encode(&png)
    );
    assert_eq!(url, expected);
    assert!(url.starts_with("data:image/png;base64,iVBORw0KGgo"));
}

#[test]
fn data_url_padding() {
    assert_eq!(png_data_url(&[]), "data:image/png;base64,");
    assert_eq!(png_data_url(b"f"), "data:image/png;base64,Zg==");
    assert_eq!(png_data_url(b"fo"), "data:image/png;base64,Zm8=");
    assert_eq!(png_data_url(b"foo"), "data:image/png;base64,Zm9v");
    assert_eq!(png_data_url(b"foobar"), "data:image/png;base64,Zm9vYmFy");
    assert_eq!(png_data_url(&[0xfb, 0xff, 0xbf]), "data:image/png;base64,+/+/");
}

#[test]
fn log_lines() {
    assert_eq!(format_line("08:15:00", "boot", "started"), "[08:15:00] [boot] started");
    assert_eq!(console_line("boot", "started"), "[boot] started");
    let line = info("apps", "added Kodi");
    assert!(line.starts_with('['));
    assert!(line.ends_with("] [apps] added Kodi"));
    let bytes = line.as_bytes();
    assert_eq!(bytes[3], b':');
    assert_eq!(bytes[6], b':');
    assert!(bytes[1..3].iter().all(|b| b.is_ascii_digit()));
    assert_eq!(line.len(), "[00:00:00] [apps] added Kodi".len());
}

#[test]
fn log_file_names() {
    assert_eq!(log_file_name("2026-08-15"), "2026-08-15.log");
    let today = todays_log_file_name();
    assert!(today.ends_with(".log"));
    assert_eq!(today.len(), "2026-08-15.log".len());
    let b = today.as_bytes();
    assert_eq!(b[4], b'-');
    assert_eq!(b[7], b'-');
    for k in [0, 1, 2, 3, 5, 6, 8, 9] {
        assert!(b[k].is_ascii_digit());
    }
}

#[test]
fn path_joins() {
    assert_eq!(join("C:\\Apps", "setting.conf"), "C:\\Apps\\setting.conf");
    assert_eq!(join("C:\\Apps\\", "apps.json"), "C:\\Apps\\apps.json");
    assert_eq!(join("C:/Apps/", "apps.json"), "C:/Apps/apps.json");
    assert_eq!(join("C:", "conf"), "C:conf");
    assert_eq!(join("", "conf"), "conf");
}

#[test]
fn launcher_file_locations() {
    assert_eq!(config_path(Some("C:\\WinNas")), "C:\\WinNas\\setting.conf");
    assert_eq!(config_path(None), ".\\setting.conf");
    assert_eq!(apps_path(Some("C:\\WinNas")), "C:\\WinNas\\apps.json");
    assert_eq!(
        conf_dir(true, Some("D:\\Portable"), Some("C:\\Users\\u\\AppData\\Roaming")),
        "D:\\Portable\\conf"
    );
    assert_eq!(
        conf_dir(false, Some("D:\\Portable"), Some("C:\\Users\\u\\AppData\\Roaming")),
        "C:\\Users\\u\\AppData\\Roaming\\WinNasLauncher\\conf"
    );
    assert_eq!(conf_dir(true, None, None), ".\\WinNasLauncher\\conf");
    assert_eq!(snapshot_path("C:\\conf"), "C:\\conf\\state_snapshot.json");
    assert_eq!(log_dir("C:\\conf"), "C:\\conf\\logs");
}

#[test]
fn system_command_arguments() {
    assert_eq!(shutdown_args(), vec!["/s", "/t", "0"]);
    assert_eq!(reboot_args(), vec!["/r", "/t", "0"]);
    assert_eq!(powercfg_path(Some("D:\\WINDOWS")), "D:\\WINDOWS\\System32\\powercfg.exe");
    assert_eq!(powercfg_path(None), "C:\\Windows\\System32\\powercfg.exe");
}
