use mods_localizer::archive::Archive;
use mods_localizer::backup::{validate_session_id_format, TranslationSummary};
use mods_localizer::config::default_config;
use mods_localizer::error::MinecraftError;
use mods_localizer::filesystem::{
    is_translated_file_name, is_web_url, should_emit_progress, FileSystemError,
};
use mods_localizer::json::ParseError;
use mods_localizer::logging::{
    format_log_line, translation_scope_message, translation_start_message, LogBuffer, LogEntry,
    LogLevel, MAX_LOG_ENTRIES,
};
use mods_localizer::rewrite::{book_language_path, replace_entry, write_patchouli_book};
use std::io::{Cursor, Write};
use zip::write::FileOptions;
use zip::ZipWriter;

fn jar(entries: &[(&str, &[u8])]) -> Vec<u8> {
    let mut zip = ZipWriter::new(Cursor::new(Vec::new()));
    for (name, data) in entries {
        zip.start_file(*name, FileOptions::default()).unwrap();
        zip.write_all(data).unwrap();
    }
    zip.finish().unwrap().into_inner()
}

fn contents(bytes: Vec<u8>) -> Vec<(String, Vec<u8>)> {
    let mut archive = Archive::open(bytes).unwrap();
    let mut all = Vec::new();
    for i in 0..archive.len() {
        all.push((archive.entry_name(i).unwrap(), archive.entry_bytes(i).unwrap()));
    }
    all
}

#[test]
fn replaced_entry_reads_back_and_the_others_stay() {
    let binary: Vec<u8> = (0..=255u8).collect();
    let source = jar(&[
        ("fabric.mod.json", br#"{"id": "m"}"#),
        ("assets/m/textures/a.png", &binary),
        ("assets/m/lang/en_us.json", b"\xEF\xBB\xBF{\"a\": \"b\x00\"}"),
        ("empty", b""),
    ]);
    let path = "assets/m/patchouli_books/b/ja_jp.json";
    let bytes = "{\"name\": \"本\"}".as_bytes();
    let out = replace_entry(source.clone(), path, bytes).unwrap();
    let mut archive = Archive::open(out.clone()).unwrap();
    assert_eq!(archive.read_entry(path).unwrap(), bytes);
    let mut expected = contents(source);
    expected.push((path.to_string(), bytes.to_vec()));
    assert_eq!(contents(out), expected);
}

#[test]
fn existing_entry_is_replaced_not_doubled() {
    let source = jar(&[("a.txt", b"old"), ("b.txt", b"keep"), ("a.txt", b"older")]);
    let out = replace_entry(source, "a.txt", b"new").unwrap();
    assert_eq!(
        contents(out.clone()),
        vec![("b.txt".to_string(), b"keep".to_vec()), ("a.txt".to_string(), b"new".to_vec())]
    );
    let again = replace_entry(out, "a.txt", b"newer").unwrap();
    assert_eq!(
        contents(again),
        vec![("b.txt".to_string(), b"keep".to_vec()), ("a.txt".to_string(), b"newer".to_vec())]
    );
}

#[test]
fn rewriting_fails_cleanly() {
    assert!(matches!(replace_entry(b"junk".to_vec(), "a", b""), Err(MinecraftError::ArchiveOpen)));
    let long = "n".repeat(65536);
    match replace_entry(jar(&[("a.txt", b"1")]), &long, b"") {
        Err(MinecraftError::Rewrite(step)) => assert_eq!(step, "entry name too long"),
        other => panic!("unexpected {:?}", other.map(|v| v.len())),
    }
    let longest = "n".repeat(65535);
    let out = replace_entry(jar(&[("a.txt", b"1")]), &longest, b"x").unwrap();
    assert_eq!(Archive::open(out).unwrap().read_entry(&longest).unwrap(), b"x");
}

#[test]
fn empty_archive_takes_a_first_entry() {
    let out = replace_entry(jar(&[]), "only.txt", b"1").unwrap();
    assert_eq!(contents(out), vec![("only.txt".to_string(), b"1".to_vec())]);
}

#[test]
fn translated_book_is_written_into_the_archive() {
    assert_eq!(book_language_path("m", "guide", "ja_jp"), "assets/m/patchouli_books/guide/ja_jp.json");
    let source = jar(&[("fabric.mod.json", br#"{"id": "m"}"#)]);
    let content = "{\"title\": \"題\", \"name\": \"名\"}";
    let out = write_patchouli_book(source.clone(), "guide", "m", "ja_jp", content).unwrap();
    let all = contents(out);
    assert_eq!(all.len(), 2);
    assert_eq!(all[0].0, "fabric.mod.json");
    assert_eq!(all[1].0, "assets/m/patchouli_books/guide/ja_jp.json");
    assert_eq!(all[1].1, content.as_bytes());
    match write_patchouli_book(source.clone(), "guide", "m", "ja_jp", "{\"a\": 1}") {
        Err(MinecraftError::Parse(e)) => {
            assert_eq!(e.path, "assets/m/patchouli_books/guide/ja_jp.json")
        },
        other => panic!("unexpected {:?}", other.map(|v| v.len())),
    }
    assert!(matches!(
        write_patchouli_book(source, "guide", "m", "ja_jp", "not json"),
        Err(MinecraftError::Parse(_))
    ));
    assert!(matches!(
        write_patchouli_book(b"junk".to_vec(), "guide", "m", "ja_jp", "{}"),
        Err(MinecraftError::ArchiveOpen)
    ));
}

#[test]
fn every_error_has_its_message() {
    assert_eq!(MinecraftError::ArchiveOpen.message(), "ZIP error: not a valid archive");
    assert_eq!(MinecraftError::EntrySealed(3).message(), "ZIP error: an entry cannot be opened");
    assert_eq!(
        MinecraftError::EntryNotFound("a".to_string()).message(),
        "ZIP error: entry not found: a"
    );
    assert_eq!(
        MinecraftError::EntryUnreadable("a".to_string()).message(),
        "IO error: cannot read a"
    );
    assert_eq!(
        MinecraftError::Parse(ParseError { path: "p.json".to_string() }).message(),
        "JSON error: cannot parse p.json"
    );
    assert_eq!(MinecraftError::Pattern.message(), "Patchouli error: pattern refused");
    assert_eq!(MinecraftError::Rewrite("x".to_string()).message(), "Patchouli error: x");
    assert_eq!(FileSystemError::Io("e".to_string()).message(), "IO error: e");
    assert_eq!(FileSystemError::Path("e".to_string()).message(), "Path error: e");
    assert_eq!(FileSystemError::NotFound("e".to_string()).message(), "File not found: e");
    assert_eq!(
        FileSystemError::InvalidFileType("e".to_string()).message(),
        "Invalid file type: e"
    );
    assert_eq!(FileSystemError::Dialog("e".to_string()).message(), "Dialog error: e");
    assert_eq!(FileSystemError::TauriFs("e".to_string()).message(), "Tauri FS error: e");
}

#[test]
fn default_configuration_has_the_documented_values() {
    let c = default_config();
    assert_eq!(c.llm.provider, "openai");
    assert_eq!(c.llm.api_key, "");
    assert_eq!(c.llm.base_url, None);
    assert_eq!(c.llm.model, Some("o4-mini-2025-04-16".to_string()));
    assert_eq!(c.llm.max_retries, 5);
    assert_eq!(c.llm.prompt_template, None);
    assert_eq!(c.translation.mod_chunk_size, 50);
    assert_eq!(c.translation.quest_chunk_size, 1);
    assert_eq!(c.translation.guidebook_chunk_size, 1);
    assert!(c.translation.custom_languages.is_empty());
    assert_eq!(c.translation.resource_pack_name, "MinecraftModsLocalizer");
    assert_eq!(c.ui.theme, "system");
    assert_eq!(c.paths.minecraft_dir, "");
    assert_eq!(c.paths.mods_dir, "");
    assert_eq!(c.paths.resource_packs_dir, "");
    assert_eq!(c.paths.config_dir, "");
    assert_eq!(c.paths.logs_dir, "");
}

#[test]
fn session_ids_have_a_fixed_form() {
    assert!(validate_session_id_format("2024-01-31_23-59-58"));
    assert!(validate_session_id_format("0000-00-00_00-00-00"));
    assert!(!validate_session_id_format("2024-01-31 23-59-58"));
    assert!(!validate_session_id_format("2024-01-31_23-59-5"));
    assert!(!validate_session_id_format("2024-01-31_23-59-589"));
    assert!(!validate_session_id_format("2024/01/31_23-59-58"));
    assert!(!validate_session_id_format("20x4-01-31_23-59-58"));
    assert!(!validate_session_id_format("2024-01-31_23-59-0é"));
    assert!(!validate_session_id_format("２０２４-01-31_23-59-58"));
    assert!(!validate_session_id_format(""));
}

#[test]
fn summary_records_translations_in_order() {
    let mut summary = TranslationSummary::new("ja_jp".to_string());
    summary.record("mod".to_string(), "A".to_string(), "completed".to_string(), 234, 234);
    summary.record("quest".to_string(), "B".to_string(), "failed".to_string(), 0, -1);
    assert_eq!(summary.lang, "ja_jp");
    assert_eq!(summary.translations.len(), 2);
    assert_eq!(summary.translations[0].translation_type, "mod");
    assert_eq!(summary.translations[0].keys, "234/234");
    assert_eq!(summary.translations[1].name, "B");
    assert_eq!(summary.translations[1].status, "failed");
    assert_eq!(summary.translations[1].keys, "0/-1");
}

#[test]
fn scan_decisions() {
    assert!(is_translated_file_name("quests.ja_jp.json"));
    assert!(is_translated_file_name("a.ru_ru.snbt"));
    assert!(!is_translated_file_name("ja_jp.json"));
    assert!(!is_translated_file_name("quests.en_us.json"));
    assert!(is_web_url("http://example.org"));
    assert!(is_web_url("https://example.org"));
    assert!(!is_web_url("ftp://example.org"));
    assert!(!is_web_url("http:/"));
    assert!(should_emit_progress(10, 0, false));
    assert!(should_emit_progress(0, 0, false));
    assert!(should_emit_progress(3, 200, false));
    assert!(should_emit_progress(3, 0, true));
    assert!(!should_emit_progress(3, 199, false));
}

fn entry(message: &str, process_type: Option<&str>) -> LogEntry {
    LogEntry {
        timestamp: "2024-01-31 23:59:58.123".to_string(),
        level: LogLevel::Warning,
        message: message.to_string(),
        process_type: process_type.map(|s| s.to_string()),
    }
}

#[test]
fn log_lines_and_messages() {
    assert_eq!(LogLevel::Debug.as_str(), "DEBUG");
    assert_eq!(LogLevel::Info.as_str(), "INFO");
    assert_eq!(LogLevel::Warning.as_str(), "WARNING");
    assert_eq!(LogLevel::Error.as_str(), "ERROR");
    assert_eq!(
        format_log_line(&entry("low disk", Some("BACKUP"))),
        "[2024-01-31 23:59:58.123] [WARNING] [BACKUP] low disk\n"
    );
    assert_eq!(
        format_log_line(&entry("low disk", None)),
        "[2024-01-31 23:59:58.123] [WARNING] low disk\n"
    );
    assert_eq!(
        translation_start_message("2024-01-31_23-59-58", "ja_jp", 12, 3400),
        "Starting translation session 2024-01-31_23-59-58 to ja_jp - 12 files, ~3400 translation keys"
    );
    assert_eq!(
        translation_scope_message(3, 40, -5),
        "Translation scope: 3 files containing ~40 keys and ~-5 lines"
    );
}

#[test]
fn log_buffer_keeps_the_most_recent_entries() {
    let mut buffer = LogBuffer::new();
    assert_eq!(buffer.len(), 0);
    for i in 0..(MAX_LOG_ENTRIES + 5) {
        buffer.push(entry(&i.to_string(), None));
    }
    assert_eq!(buffer.len(), MAX_LOG_ENTRIES);
    let kept = buffer.entries();
    assert_eq!(kept.len(), 1000);
    assert_eq!(kept[0].message, "5");
    assert_eq!(kept[999].message, "1004");
    buffer.clear();
    assert_eq!(buffer.len(), 0);
}

#[test]
fn book_is_written_beside_the_other_entries() {
    let source = jar(&[
        ("fabric.mod.json", br#"{"id":"m","name":"M","version":"1"}"#),
        ("assets/m/textures/t.png", b"\x89PNG\x00\x01"),
    ]);
    let content = r#"{"name":"本"}"#;
    let out = write_patchouli_book(source, "b", "m", "ja_jp", content).unwrap();
    assert_eq!(
        contents(out.clone()),
        vec![
            (
                "fabric.mod.json".to_string(),
                br#"{"id":"m","name":"M","version":"1"}"#.to_vec()
            ),
            ("assets/m/textures/t.png".to_string(), b"\x89PNG\x00\x01".to_vec()),
            ("assets/m/patchouli_books/b/ja_jp.json".to_string(), content.as_bytes().to_vec()),
        ]
    );
    let again = write_patchouli_book(out, "b", "m", "ja_jp", r#"{"name":"書"}"#).unwrap();
    let all = contents(again);
    assert_eq!(all.len(), 3);
    assert_eq!(all[2].0, "assets/m/patchouli_books/b/ja_jp.json");
    assert_eq!(all[2].1, r#"{"name":"書"}"#.as_bytes());
}
