use mods_localizer::archive::Archive;
use mods_localizer::error::MinecraftError;
use mods_localizer::lang::{
    detect_reference_format, extract_lang_files_from_archive,
    extract_lang_files_from_archive_with_format, is_language_file, language_of,
    parse_lang_file, parse_legacy_lang, scan_language_files, LanguageFormat,
};
use mods_localizer::minecraft::{
    check_mod_translation_exists, extract_lang_files, has_translation,
};
use mods_localizer::text::chars_of;
use std::io::{Cursor, Write};
use zip::write::FileOptions;
use zip::{CompressionMethod, ZipWriter};

fn jar_with(entries: &[(&str, &[u8])], method: CompressionMethod) -> Vec<u8> {
    let mut zip = ZipWriter::new(Cursor::new(Vec::new()));
    let options = FileOptions::default().compression_method(method);
    for (name, data) in entries {
        zip.start_file(*name, options).unwrap();
        zip.write_all(data).unwrap();
    }
    zip.finish().unwrap().into_inner()
}

fn jar(entries: &[(&str, &[u8])]) -> Vec<u8> {
    jar_with(entries, CompressionMethod::Stored)
}

fn create_mock_mod_jar(mod_id: &str, languages: Vec<(&str, &str)>) -> Vec<u8> {
    let mut entries: Vec<(String, Vec<u8>)> = Vec::new();
    let mod_json = format!(
        "{{\n  \"schemaVersion\": 1,\n  \"id\": \"{}\",\n  \"version\": \"1.0.0\",\n  \"name\": \"Test Mod\"\n}}",
        mod_id
    );
    entries.push(("fabric.mod.json".to_string(), mod_json.into_bytes()));
    let json_content = format!(
        "{{\n  \"item.{}.test\": \"Test Item\",\n  \"block.{}.test\": \"Test Block\"\n}}",
        mod_id, mod_id
    );
    for (lang_code, format) in &languages {
        let path = format!("assets/{}/lang/{}.{}", mod_id, lang_code, format);
        if *format == "json" {
            entries.push((path, json_content.clone().into_bytes()));
        } else {
            let content =
                format!("item.{}.test=Test Item\nblock.{}.test=Test Block", mod_id, mod_id);
            entries.push((path, content.into_bytes()));
        }
    }
    if !languages.iter().any(|(lang, _)| lang == &"en_us") {
        entries.push((format!("assets/{}/lang/en_us.json", mod_id), json_content.into_bytes()));
    }
    let borrowed: Vec<(&str, &[u8])> =
        entries.iter().map(|(n, d)| (n.as_str(), d.as_slice())).collect();
    jar(&borrowed)
}

#[test]
fn archive_opens_and_lists_its_entries_in_order() {
    let bytes = jar(&[("b.txt", b"two"), ("a/c.txt", b"one"), ("b.txt", b"three")]);
    let mut archive = Archive::open(bytes).unwrap();
    assert_eq!(archive.len(), 3);
    assert_eq!(archive.list_entries().unwrap(), vec!["b.txt", "a/c.txt", "b.txt"]);
    assert_eq!(archive.entry_name(1), Some("a/c.txt".to_string()));
    assert_eq!(archive.entry_name(3), None);
    assert_eq!(archive.entry_bytes(0), Some(b"two".to_vec()));
    assert_eq!(archive.entry_bytes(3), None);
    assert_eq!(archive.read_entry("a/c.txt").unwrap(), b"one".to_vec());
    assert_eq!(archive.read_entry("b.txt").unwrap(), b"three".to_vec());
}

#[test]
fn archive_reads_deflated_entries() {
    let data = vec![b'x'; 5000];
    let bytes = jar_with(&[("big.txt", &data)], CompressionMethod::Deflated);
    assert!(bytes.len() < 1000);
    let mut archive = Archive::open(bytes).unwrap();
    assert_eq!(archive.read_entry("big.txt").unwrap(), data);
}

#[test]
fn bytes_that_are_no_archive_are_refused() {
    assert!(matches!(
        Archive::open(b"This is not a valid JAR file".to_vec()),
        Err(MinecraftError::ArchiveOpen)
    ));
    assert!(matches!(Archive::open(Vec::new()), Err(MinecraftError::ArchiveOpen)));
}

#[test]
fn missing_entry_is_reported_by_name() {
    let mut archive = Archive::open(jar(&[("a.txt", b"1")])).unwrap();
    match archive.read_entry("b.txt") {
        Err(MinecraftError::EntryNotFound(path)) => assert_eq!(path, "b.txt"),
        other => panic!("unexpected {:?}", other),
    }
}

#[test]
fn corrupt_entry_is_unreadable() {
    let mut bytes = jar(&[("a.txt", b"some stored content"), ("b.txt", b"fine")]);
    let at = bytes.windows(4).position(|w| w == b"some").unwrap();
    bytes[at] = b'S';
    let mut archive = Archive::open(bytes.clone()).unwrap();
    assert_eq!(archive.entry_name(0), Some("a.txt".to_string()));
    assert_eq!(archive.entry_bytes(0), None);
    assert_eq!(archive.entry_bytes(1), Some(b"fine".to_vec()));
    match archive.read_entry("a.txt") {
        Err(MinecraftError::EntryUnreadable(path)) => assert_eq!(path, "a.txt"),
        other => panic!("unexpected {:?}", other),
    }
    assert!(matches!(
        mods_localizer::rewrite::replace_entry(bytes, "new.txt", b"x"),
        Err(MinecraftError::EntryUnreadable(_))
    ));
}

#[test]
fn entry_of_unsupported_kind_is_sealed() {
    let mut bytes = jar(&[("a.txt", b"content"), ("b.txt", b"fine")]);
    let central = bytes.windows(4).position(|w| w == [0x50, 0x4b, 0x01, 0x02]).unwrap();
    bytes[central + 10] = 12;
    let mut archive = Archive::open(bytes.clone()).unwrap();
    assert_eq!(archive.len(), 2);
    assert_eq!(archive.entry_name(0), None);
    assert_eq!(archive.entry_bytes(0), None);
    assert_eq!(archive.entry_name(1), Some("b.txt".to_string()));
    assert!(matches!(archive.list_entries(), Err(MinecraftError::EntrySealed(0))));
    assert!(matches!(archive.read_entry("a.txt"), Err(MinecraftError::EntryNotFound(_))));
    assert!(matches!(
        scan_language_files(&mut archive, "en_us"),
        Err(MinecraftError::EntrySealed(0))
    ));
    let books = mods_localizer::guidebook::scan_books(&mut archive).unwrap();
    assert!(books.books.is_empty());
    assert!(books.skipped.is_empty());
    assert_eq!(books.unopened, vec![0]);
    assert!(matches!(
        mods_localizer::rewrite::replace_entry(bytes, "new.txt", b"x"),
        Err(MinecraftError::EntrySealed(0))
    ));
}

#[test]
fn language_files_are_told_by_their_paths() {
    assert!(is_language_file(&chars_of("assets/m/lang/en_us.json")));
    assert!(is_language_file(&chars_of("assets/m/lang/en_US.lang")));
    assert!(is_language_file(&chars_of("assets/m/lang/sub/x.json")));
    assert!(!is_language_file(&chars_of("lang/en_us.json")));
    assert!(!is_language_file(&chars_of("assets/m/lang/en_us.txt")));
    assert!(!is_language_file(&chars_of("assets/m/language/en_us.json")));
    assert_eq!(language_of(&chars_of("assets/m/lang/JA_jp.json")), "ja_jp");
    assert_eq!(language_of(&chars_of("assets/m/lang/en_us.lang")), "en_us");
    assert_eq!(language_of(&chars_of("assets/m/lang/en_us.json.json")), "en_us.json");
    assert_eq!(language_of(&chars_of("assets/m/lang/.json")), "");
    assert_eq!(language_of(&chars_of("README")), "readme");
}

#[test]
fn legacy_lines_give_keys_and_values() {
    let m = parse_legacy_lang(
        "# comment\n\nitem.a = Alpha \r\nitem.b=Be=ta\nno separator\n  #x=y\n=empty key\nitem.a=Again\nitem.c=",
    );
    assert_eq!(m.len(), 4);
    assert_eq!(m.get("item.a"), Some("Again".to_string()));
    assert_eq!(m.get("item.b"), Some("Be=ta".to_string()));
    assert_eq!(m.get(""), Some("empty key".to_string()));
    assert_eq!(m.get("item.c"), Some("".to_string()));
    assert_eq!(m.get("no separator"), None);
    assert_eq!(parse_legacy_lang("").len(), 0);
}

#[test]
fn legacy_file_gives_the_same_mapping_as_the_json_file() {
    let legacy = parse_lang_file(
        &chars_of("assets/m/lang/en_us.lang"),
        b"item.m.test=Test Item\nblock.m.test=Test Block",
    )
    .unwrap();
    let json = parse_lang_file(
        &chars_of("assets/m/lang/en_us.json"),
        b"{\"item.m.test\": \"Test Item\", \"block.m.test\": \"Test Block\"}",
    )
    .unwrap();
    assert_eq!(legacy.len(), 2);
    assert_eq!(json.len(), 2);
    for key in ["item.m.test", "block.m.test"] {
        assert_eq!(legacy.get(key), json.get(key));
        assert!(legacy.get(key).is_some());
    }
    let bytes = jar(&[("assets/m/lang/en_us.lang", b"item.m.test=Test Item")]);
    let mut archive = Archive::open(bytes).unwrap();
    assert_eq!(detect_reference_format(&mut archive).unwrap(), LanguageFormat::LegacyKeyValue);
    let (files, format) =
        extract_lang_files_from_archive_with_format(&mut archive, "en_us").unwrap();
    assert_eq!(format, "lang");
    assert_eq!(files.len(), 1);
    assert_eq!(files[0].language, "en_us");
    assert_eq!(files[0].path, "assets/m/lang/en_us.lang");
    assert_eq!(files[0].content.get("item.m.test"), Some("Test Item".to_string()));
}

#[test]
fn json_file_beyond_recovery_is_skipped() {
    assert!(parse_lang_file(&chars_of("assets/m/lang/en_us.json"), b"{ nope").is_none());
    assert!(parse_lang_file(&chars_of("assets/m/lang/en_us.json"), b"{\"a\": 1}").is_none());
    let bytes = jar(&[
        ("assets/a/lang/ja_jp.json", b"{ broken"),
        ("assets/b/lang/ja_jp.json", b"{\"k\": \"v\"}"),
    ]);
    let mut archive = Archive::open(bytes).unwrap();
    let scan = scan_language_files(&mut archive, "ja_jp").unwrap();
    assert_eq!(scan.files.len(), 1);
    assert_eq!(scan.files[0].path, "assets/b/lang/ja_jp.json");
    assert_eq!(scan.skipped, vec!["assets/a/lang/ja_jp.json"]);
    assert_eq!(scan.format, LanguageFormat::Json);
}

#[test]
fn sanitizing_comes_before_parsing() {
    let m = parse_lang_file(
        &chars_of("assets/m/lang/en_us.json"),
        b"\xEF\xBB\xBF{\"a\": \"x\x00y\x01z\"}",
    )
    .unwrap();
    assert_eq!(m.get("a"), Some("xy z".to_string()));
}

#[test]
fn target_language_is_matched_without_regard_to_case() {
    let bytes = jar(&[
        ("assets/m/lang/en_us.json", b"{\"item.m.test\": \"Test Item\"}"),
        ("assets/m/lang/ja_jp.json", "{\"item.m.test\": \"テストアイテム\"}".as_bytes()),
    ]);
    for code in ["JA_JP", "ja_JP", "ja_jp", "Ja_Jp"] {
        let mut archive = Archive::open(bytes.clone()).unwrap();
        let files = extract_lang_files_from_archive(&mut archive, code).unwrap();
        assert_eq!(files.len(), 1, "for {}", code);
        assert_eq!(files[0].language, "ja_jp");
    }
}

#[test]
fn concrete_mod_with_two_languages() {
    let bytes = jar(&[
        ("fabric.mod.json", b"{\"id\": \"testmod\"}"),
        ("assets/testmod/lang/en_us.json", b"{\"item.testmod.test\": \"Test Item\"}"),
        (
            "assets/testmod/lang/ja_jp.json",
            "{\"item.testmod.test\": \"テストアイテム\"}".as_bytes(),
        ),
    ]);
    let mut archive = Archive::open(bytes).unwrap();
    let files = extract_lang_files_from_archive(&mut archive, "ja_jp").unwrap();
    assert_eq!(files.len(), 1);
    assert_eq!(files[0].content.get("item.testmod.test"), Some("テストアイテム".to_string()));
    assert_eq!(files[0].path, "assets/testmod/lang/ja_jp.json");
    let none = extract_lang_files_from_archive(&mut archive, "zh_cn").unwrap();
    assert!(none.is_empty());
}

#[test]
fn first_reference_file_decides_the_format() {
    let bytes = jar(&[
        ("assets/a/lang/en_us.lang", b"k=v"),
        ("assets/b/lang/en_us.json", b"{\"k\": \"v\"}"),
    ]);
    let mut archive = Archive::open(bytes).unwrap();
    assert_eq!(detect_reference_format(&mut archive).unwrap(), LanguageFormat::LegacyKeyValue);
    let bytes = jar(&[
        ("assets/b/lang/en_us.json", b"{\"k\": \"v\"}"),
        ("assets/a/lang/en_us.lang", b"k=v"),
    ]);
    let mut archive = Archive::open(bytes).unwrap();
    assert_eq!(detect_reference_format(&mut archive).unwrap(), LanguageFormat::Json);
    let mut archive = Archive::open(jar(&[("x.txt", b"")])).unwrap();
    assert_eq!(detect_reference_format(&mut archive).unwrap(), LanguageFormat::Json);
    assert_eq!(LanguageFormat::Json.as_str(), "json");
    assert_eq!(LanguageFormat::LegacyKeyValue.as_str(), "lang");
}

#[test]
fn backslash_paths_are_language_files_too() {
    let bytes = jar(&[("assets\\pathmod\\lang\\ja_jp.json", b"{\"test\": \"test\"}")]);
    let mut archive = Archive::open(bytes).unwrap();
    let files = extract_lang_files_from_archive(&mut archive, "ja_jp").unwrap();
    assert_eq!(files.len(), 1);
    assert_eq!(files[0].path, "assets\\pathmod\\lang\\ja_jp.json");
}

#[test]
fn file_of_requested_language_that_cannot_be_read_stops_the_scan() {
    let mut bytes = jar(&[("assets/m/lang/ja_jp.json", b"{\"key\": \"value\"}")]);
    let at = bytes.windows(5).position(|w| w == b"value").unwrap();
    bytes[at] = b'V';
    let mut archive = Archive::open(bytes).unwrap();
    match scan_language_files(&mut archive, "ja_jp") {
        Err(MinecraftError::EntryUnreadable(path)) => assert_eq!(path, "assets/m/lang/ja_jp.json"),
        other => panic!("unexpected {:?}", other),
    }
    assert!(scan_language_files(&mut archive, "en_us").unwrap().files.is_empty());
}

#[test]
fn lang_files_of_a_mod_need_its_identity() {
    let files = extract_lang_files(create_mock_mod_jar("m", vec![("en_us", "json")])).unwrap();
    assert_eq!(files.len(), 1);
    assert_eq!(files[0].content.get("item.m.test"), Some("Test Item".to_string()));
    let no_identity = jar(&[("assets/m/lang/en_us.json", b"{}")]);
    assert!(matches!(extract_lang_files(no_identity), Err(MinecraftError::IdentityNotFound)));
    assert!(matches!(extract_lang_files(b"junk".to_vec()), Err(MinecraftError::ArchiveOpen)));
}

#[test]
fn test_check_mod_translation_exists_with_json() {
    let mod_id = "testmod";
    let bytes = create_mock_mod_jar(mod_id, vec![("en_us", "json"), ("ja_jp", "json")]);
    let result = check_mod_translation_exists(bytes.clone(), mod_id, "ja_jp");
    assert!(result.is_ok());
    assert!(result.unwrap(), "Should find ja_jp.json translation");
    let result = check_mod_translation_exists(bytes, mod_id, "zh_cn");
    assert!(result.is_ok());
    assert!(!result.unwrap(), "Should not find zh_cn translation");
}

#[test]
fn test_check_mod_translation_exists_with_lang_format() {
    let mod_id = "legacymod";
    let bytes = create_mock_mod_jar(mod_id, vec![("en_us", "lang"), ("ja_jp", "lang")]);
    let result = check_mod_translation_exists(bytes, mod_id, "ja_jp");
    assert!(result.is_ok());
    assert!(result.unwrap(), "Should find ja_jp.lang translation");
}

#[test]
fn test_check_mod_translation_case_insensitive() {
    let mod_id = "casetest";
    let bytes = create_mock_mod_jar(mod_id, vec![("ja_jp", "json")]);
    let result = check_mod_translation_exists(bytes.clone(), mod_id, "JA_JP");
    assert!(result.is_ok());
    assert!(result.unwrap(), "Should find translation with case-insensitive language code");
    let result = check_mod_translation_exists(bytes, mod_id, "ja_JP");
    assert!(result.is_ok());
    assert!(result.unwrap(), "Should find translation with mixed case language code");
}

#[test]
fn test_check_mod_translation_mixed_formats() {
    let mod_id = "mixedmod";
    let bytes = create_mock_mod_jar(
        mod_id,
        vec![("en_us", "json"), ("ja_jp", "lang"), ("zh_cn", "json")],
    );
    let result_ja = check_mod_translation_exists(bytes.clone(), mod_id, "ja_jp");
    assert!(result_ja.is_ok());
    assert!(result_ja.unwrap(), "Should find ja_jp.lang translation");
    let result_zh = check_mod_translation_exists(bytes, mod_id, "zh_cn");
    assert!(result_zh.is_ok());
    assert!(result_zh.unwrap(), "Should find zh_cn.json translation");
}

#[test]
fn test_check_mod_translation_invalid_jar() {
    let result =
        check_mod_translation_exists(b"This is not a valid JAR file".to_vec(), "testmod", "ja_jp");
    assert!(result.is_err(), "Should return error for invalid JAR file");
}

#[test]
fn test_check_mod_translation_realistic_structure() {
    let mod_id = "examplemod";
    let mod_json = format!(
        "{{\n  \"schemaVersion\": 1,\n  \"id\": \"{}\",\n  \"version\": \"1.0.0\",\n  \"name\": \"Example Mod\",\n  \"description\": \"A test mod\"\n}}",
        mod_id
    );
    let bytes = jar_with(
        &[
            ("META-INF/MANIFEST.MF", b"Manifest-Version: 1.0\n"),
            ("fabric.mod.json", mod_json.as_bytes()),
            ("assets/examplemod/lang/en_us.json", br#"{"item.examplemod.test": "Test Item"}"#),
            (
                "assets/examplemod/lang/ja_jp.json",
                r#"{"item.examplemod.test": "テストアイテム"}"#.as_bytes(),
            ),
            (
                "assets/examplemod/lang/ko_kr.json",
                r#"{"item.examplemod.test": "테스트 아이템"}"#.as_bytes(),
            ),
            ("assets/examplemod/textures/item/test.png", b"PNG_DATA"),
        ],
        CompressionMethod::Deflated,
    );
    let test_cases = vec![("ja_jp", true), ("ko_kr", true), ("zh_cn", false), ("de_de", false)];
    for (lang, expected) in test_cases {
        let result = check_mod_translation_exists(bytes.clone(), mod_id, lang);
        assert!(result.is_ok());
        assert_eq!(
            result.unwrap(),
            expected,
            "Language {} should be {}",
            lang,
            if expected { "found" } else { "not found" }
        );
    }
}

#[test]
fn test_check_mod_translation_special_characters() {
    let mod_id = "test-mod_2";
    let bytes = create_mock_mod_jar(mod_id, vec![("ja_jp", "json")]);
    let result = check_mod_translation_exists(bytes, mod_id, "ja_jp");
    assert!(result.is_ok());
    assert!(result.unwrap(), "Should handle mod IDs with special characters");
}

#[test]
fn test_check_mod_translation_empty_language() {
    let mod_id = "testmod";
    let bytes = create_mock_mod_jar(mod_id, vec![("ja_jp", "json")]);
    let result = check_mod_translation_exists(bytes, mod_id, "");
    assert!(result.is_ok());
    assert!(!result.unwrap(), "Empty language code should return false");
}

#[test]
fn test_check_mod_translation_performance() {
    let mod_id = "largemod";
    let mut entries: Vec<(String, Vec<u8>)> = Vec::new();
    for i in 0..1000 {
        entries.push((
            format!("assets/{}/textures/item/item_{}.png", mod_id, i),
            b"PNG_DATA".to_vec(),
        ));
    }
    entries.push((
        format!("assets/{}/lang/ja_jp.json", mod_id),
        r#"{"test": "テスト"}"#.as_bytes().to_vec(),
    ));
    for i in 1000..2000 {
        entries.push((
            format!("assets/{}/models/block/block_{}.json", mod_id, i),
            b"MODEL_DATA".to_vec(),
        ));
    }
    let borrowed: Vec<(&str, &[u8])> =
        entries.iter().map(|(n, d)| (n.as_str(), d.as_slice())).collect();
    let bytes = jar(&borrowed);
    let start = std::time::Instant::now();
    let result = check_mod_translation_exists(bytes, mod_id, "ja_jp");
    let duration = start.elapsed();
    assert!(result.is_ok());
    assert!(result.unwrap(), "Should find translation in large JAR");
    assert!(duration.as_millis() < 1000, "Should complete within 1 second even for large JARs");
}

#[test]
fn test_check_mod_translation_nested_jars() {
    let nested = jar(&[("test.txt", b"nested content")]);
    let bytes = jar(&[
        ("fabric.mod.json", br#"{"id": "nestedmod"}"#),
        ("assets/nestedmod/lang/ja_jp.json", r#"{"test": "テスト"}"#.as_bytes()),
        ("META-INF/jars/dependency.jar", &nested),
    ]);
    let result = check_mod_translation_exists(bytes, "nestedmod", "ja_jp");
    assert!(result.is_ok());
    assert!(result.unwrap(), "Should handle mods with nested JARs");
}

#[test]
fn test_check_mod_translation_wrong_mod_id() {
    let mod_id = "correctmod";
    let wrong_mod_id = "wrongmod";
    let bytes = create_mock_mod_jar(mod_id, vec![("ja_jp", "json")]);
    let result = check_mod_translation_exists(bytes.clone(), wrong_mod_id, "ja_jp");
    assert!(result.is_ok());
    assert!(!result.unwrap(), "Should not find translation with wrong mod_id");
    assert!(has_translation(bytes.clone(), "ja_jp").unwrap());
    assert!(!has_translation(bytes, "zh_cn").unwrap());
}

#[test]
fn translation_in_another_place_does_not_count() {
    let bytes = jar(&[
        ("assets/multimod/lang/en_us.json", b"{}"),
        ("lang/ja_jp.json", b"{\"wrong\": \"true\"}"),
        ("data/multimod/lang/ja_jp.json", b"{\"wrong\": \"true\"}"),
    ]);
    assert!(!check_mod_translation_exists(bytes.clone(), "multimod", "ja_jp").unwrap());
    assert!(has_translation(bytes, "ja_jp").unwrap());
    let empty = jar(&[("assets/emptymod/lang/ja_jp.json", b"{}")]);
    assert!(check_mod_translation_exists(empty, "emptymod", "ja_jp").unwrap());
    let back = jar(&[("assets\\pathmod\\lang\\ja_jp.json", b"{\"test\": \"test\"}")]);
    assert!(check_mod_translation_exists(back, "pathmod", "ja_jp").unwrap());
}

#[test]
fn test_check_mod_translation_concurrent_access() {
    let mod_id = "concurrentmod";
    let bytes = create_mock_mod_jar(
        mod_id,
        vec![("ja_jp", "json"), ("zh_cn", "json"), ("ko_kr", "json")],
    );
    let languages = vec!["ja_jp", "zh_cn", "ko_kr", "de_de", "fr_fr"];
    let mut results = vec![];
    for lang in languages {
        results.push((lang, check_mod_translation_exists(bytes.clone(), mod_id, lang)));
    }
    for (lang, result) in results {
        assert!(result.is_ok(), "Concurrent check for {} should succeed", lang);
        let expected = matches!(lang, "ja_jp" | "zh_cn" | "ko_kr");
        assert_eq!(
            result.unwrap(),
            expected,
            "Language {} should be {}",
            lang,
            if expected { "found" } else { "not found" }
        );
    }
}
