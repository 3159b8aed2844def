use winnas_launcher::i18n::{
    detect_os_language, is_supported, locale_name_from_buffer, map_bcp47, map_langid, supported,
};

#[test]
fn supported_locales_in_front_end_order() {
    assert_eq!(
        supported(),
        vec!["zh-CN", "zh-TW", "en", "ja", "ko", "es", "ar", "fr", "de", "ru"]
    );
}

#[test]
fn only_supported_codes_accepted() {
    for code in supported() {
        assert!(is_supported(code));
    }
    assert!(!is_supported("zh"));
    assert!(!is_supported("EN"));
    assert!(!is_supported("en-US"));
    assert!(!is_supported(""));
    assert!(!is_supported("it"));
}

#[test]
fn langid_chinese_variants() {
    assert_eq!(map_langid(0x0804).as_deref(), Some("zh-CN"));
    assert_eq!(map_langid(0x1004).as_deref(), Some("zh-CN"));
    assert_eq!(map_langid(0x0404).as_deref(), Some("zh-TW"));
    assert_eq!(map_langid(0x0c04).as_deref(), Some("zh-TW"));
    assert_eq!(map_langid(0x1404).as_deref(), Some("zh-TW"));
    assert_eq!(map_langid(0x0004), None);
    assert_eq!(map_langid(0x7c04), None);
}

#[test]
fn langid_other_languages() {
    assert_eq!(map_langid(0x0409).as_deref(), Some("en"));
    assert_eq!(map_langid(0x0809).as_deref(), Some("en"));
    assert_eq!(map_langid(0x0411).as_deref(), Some("ja"));
    assert_eq!(map_langid(0x0412).as_deref(), Some("ko"));
    assert_eq!(map_langid(0x0c0a).as_deref(), Some("es"));
    assert_eq!(map_langid(0x0401).as_deref(), Some("ar"));
    assert_eq!(map_langid(0x040c).as_deref(), Some("fr"));
    assert_eq!(map_langid(0x0407).as_deref(), Some("de"));
    assert_eq!(map_langid(0x0419).as_deref(), Some("ru"));
    assert_eq!(map_langid(0x0410), None);
    assert_eq!(map_langid(0), None);
}

#[test]
fn bcp47_chinese_scripts_and_regions() {
    assert_eq!(map_bcp47("zh-Hans-CN"), "zh-CN");
    assert_eq!(map_bcp47("zh-CN"), "zh-CN");
    assert_eq!(map_bcp47("zh-SG"), "zh-CN");
    assert_eq!(map_bcp47("zh"), "zh-CN");
    assert_eq!(map_bcp47("zh-Hant-TW"), "zh-TW");
    assert_eq!(map_bcp47("zh-hant"), "zh-TW");
    assert_eq!(map_bcp47("zh_HK"), "zh-TW");
    assert_eq!(map_bcp47("zh-mo"), "zh-TW");
    assert_eq!(map_bcp47("ZH-TW"), "zh-TW");
    assert_eq!(map_bcp47("zh-Hans-TW"), "zh-TW");
    assert_eq!(map_bcp47("zh-Hans-HK"), "zh-TW");
}

#[test]
fn bcp47_other_languages() {
    assert_eq!(map_bcp47("en-US"), "en");
    assert_eq!(map_bcp47("EN-us"), "en");
    assert_eq!(map_bcp47("ja-JP"), "ja");
    assert_eq!(map_bcp47("ko_KR"), "ko");
    assert_eq!(map_bcp47("es-419"), "es");
    assert_eq!(map_bcp47("ar-SA"), "ar");
    assert_eq!(map_bcp47("fr-CA"), "fr");
    assert_eq!(map_bcp47("de-DE"), "de");
    assert_eq!(map_bcp47("ru"), "ru");
}

#[test]
fn bcp47_unknown_falls_back_to_simplified_chinese() {
    assert_eq!(map_bcp47("xx"), "zh-CN");
    assert_eq!(map_bcp47(""), "zh-CN");
    assert_eq!(map_bcp47("it-IT"), "zh-CN");
    assert_eq!(map_bcp47("-en"), "zh-CN");
}

fn utf16_buffer(s: &str) -> Vec<u16> {
    let mut buf: Vec<u16> = s.encode_utf16().collect();
    buf.push(0);
    buf.resize(85, 0);
    buf
}

#[test]
fn locale_name_read_from_buffer() {
    let buf = utf16_buffer("zh-Hans-CN");
    assert_eq!(locale_name_from_buffer(&buf, 11).as_deref(), Some("zh-Hans-CN"));
    assert_eq!(locale_name_from_buffer(&buf, 3).as_deref(), Some("zh"));
}

#[test]
fn empty_or_failed_locale_name_is_none() {
    let buf = utf16_buffer("  ");
    assert_eq!(locale_name_from_buffer(&buf, 3), None);
    assert_eq!(locale_name_from_buffer(&buf, 1), None);
    assert_eq!(locale_name_from_buffer(&buf, 0), None);
}

#[test]
fn os_language_prefers_locale_name() {
    assert_eq!(detect_os_language(Some("zh-Hans-CN"), 0x0404), "zh-CN");
    assert_eq!(detect_os_language(Some("en-GB"), 0x0804), "en");
    assert_eq!(detect_os_language(None, 0x0804), "zh-CN");
    assert_eq!(detect_os_language(None, 0x0404), "zh-TW");
    assert_eq!(detect_os_language(None, 0x0419), "ru");
    assert_eq!(detect_os_language(None, 0x0004), "zh-CN");
    assert_eq!(detect_os_language(None, 0x0410), "zh-CN");
}

#[test]
fn detected_languages_are_supported() {
    let tags = ["zh-Hans-CN", "zh-Hant", "EN", "xx-YY", "", "_", "de_AT", "pt-BR", "ja"];
    for t in tags {
        assert!(is_supported(&map_bcp47(t)), "{t}");
        assert!(is_supported(&detect_os_language(Some(t), 0)), "{t}");
    }
    for id in [0u16, 0x0804, 0x0404, 0x0409, 0x0416, 0xffff, 0x7c04] {
        if let Some(code) = map_langid(id) {
            assert!(is_supported(&code));
        }
        assert!(is_supported(&detect_os_language(None, id)));
    }
}

#[test]
fn locale_name_decodes_utf16_lossily() {
    let mut buf: Vec<u16> = vec![0x007a, 0x0068, 0xd83d, 0xde00, 0xd800, 0x0041, 0xdc00, 0];
    buf.resize(85, 0);
    assert_eq!(
        locale_name_from_buffer(&buf, 8).as_deref(),
        Some("zh\u{1F600}\u{FFFD}A\u{FFFD}")
    );
    let spaces: Vec<u16> = vec![0x3000, 0x00a0, 0x2009, 0];
    assert_eq!(locale_name_from_buffer(&spaces, 4), None);
}
