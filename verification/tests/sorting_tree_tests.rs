use mods_localizer::backup::session_ids_newest_first;
use mods_localizer::filesystem::{
    has_extension, lang_file_text, legacy_lang_text, FileSystemError,
};
use mods_localizer::json::text_map_of;
use mods_localizer::json_tree::{copy_tree, sort_json_object, JsonTree};
use mods_localizer::sorting::{
    reverse_texts, sort_texts, sort_texts_descending, text_before_or_equal,
};
use mods_localizer::text::chars_of;

fn strings(items: &[&str]) -> Vec<String> {
    items.iter().map(|s| s.to_string()).collect()
}

fn keys(tree: &JsonTree) -> Vec<String> {
    match tree {
        JsonTree::Object(members) => members.iter().map(|m| m.0.clone()).collect(),
        _ => panic!("Expected JSON object"),
    }
}

fn text(value: &str) -> JsonTree {
    JsonTree::Text(value.to_string())
}

#[test]
fn order_of_texts_agrees_with_std() {
    let samples = ["", "a", "ab", "b", "a=x", "a.b=y", "é", "z", "日本", "\u{10000}", "\u{ffff}", "A"];
    for a in samples {
        for b in samples {
            assert_eq!(
                text_before_or_equal(&chars_of(a), &chars_of(b)),
                a <= b,
                "{:?} <= {:?}",
                a,
                b
            );
        }
    }
}

#[test]
fn sorting_agrees_with_std() {
    let input = strings(&["pear", "apple", "", "fig", "apple", "Zed", "ähre", "a.b=y", "a=x"]);
    let mut expected = input.clone();
    expected.sort();
    assert_eq!(sort_texts(&input), expected);
    expected.reverse();
    assert_eq!(sort_texts_descending(&input), expected);
    assert_eq!(reverse_texts(&strings(&["1", "2", "3"])), strings(&["3", "2", "1"]));
    assert_eq!(sort_texts(&Vec::new()), Vec::<String>::new());
}

#[test]
fn sessions_are_listed_newest_first() {
    let names = strings(&[
        "2024-01-31_23-59-58",
        "notes",
        "2025-02-01_00-00-00",
        "2024-01-31_23-59-59",
        "2024-01-31",
        "2023-12-31_10-00-00",
    ]);
    assert_eq!(
        session_ids_newest_first(&names),
        strings(&[
            "2025-02-01_00-00-00",
            "2024-01-31_23-59-59",
            "2024-01-31_23-59-58",
            "2023-12-31_10-00-00",
        ])
    );
    assert!(session_ids_newest_first(&strings(&["x"])).is_empty());
}

#[test]
fn extensions_are_compared_without_leading_dots() {
    assert!(has_extension("json", ".json"));
    assert!(has_extension("json", "json"));
    assert!(has_extension("json", "..json"));
    assert!(!has_extension("json", "snbt"));
    assert!(!has_extension(".json", ".json"));
    assert!(has_extension("", "."));
}

#[test]
fn legacy_language_text_has_sorted_lines() {
    let members = text_map_of(vec![
        ("b".to_string(), "2".to_string()),
        ("a".to_string(), "x".to_string()),
        ("a.b".to_string(), "y".to_string()),
    ]);
    assert_eq!(legacy_lang_text(&members), "a.b=y\na=x\nb=2");
    assert_eq!(legacy_lang_text(&text_map_of(Vec::new())), "");
}

#[test]
fn language_file_text_follows_the_format() {
    let content = "{\"zebra.item\": \"Zebra Item\", \"apple.block\": \"Apple Block\"}";
    let legacy = lang_file_text(content, Some("lang")).unwrap();
    assert_eq!(legacy.extension, "lang");
    assert_eq!(legacy.text, "apple.block=Apple Block\nzebra.item=Zebra Item");
    for format in [None, Some("json"), Some("other")] {
        let json = lang_file_text(content, format).unwrap();
        assert_eq!(json.extension, "json");
        assert_eq!(
            json.text,
            "{\n  \"apple.block\": \"Apple Block\",\n  \"zebra.item\": \"Zebra Item\"\n}"
        );
    }
    assert!(matches!(
        lang_file_text("{\"a\": 1}", None),
        Err(FileSystemError::InvalidFileType(_))
    ));
    assert!(matches!(
        lang_file_text("nothing", Some("lang")),
        Err(FileSystemError::InvalidFileType(_))
    ));
}

#[test]
fn test_sort_json_object() {
    let json_value = JsonTree::Object(vec![
        ("zebra".to_string(), text("last")),
        ("apple".to_string(), text("first")),
        ("banana".to_string(), text("middle")),
    ]);
    let sorted_value = sort_json_object(&json_value);
    assert_eq!(keys(&sorted_value), vec!["apple", "banana", "zebra"]);
    match &sorted_value {
        JsonTree::Object(members) => match &members[0].1 {
            JsonTree::Text(t) => assert_eq!(t, "first"),
            _ => panic!("Expected JSON string"),
        },
        _ => panic!("Expected JSON object"),
    }
}

#[test]
fn test_sort_json_object_nested() {
    let inner = JsonTree::Object(vec![
        ("inner_z".to_string(), text("inner_z_val")),
        ("inner_a".to_string(), text("inner_a_val")),
    ]);
    let json_value = JsonTree::Object(vec![
        ("outer_z".to_string(), inner),
        ("outer_a".to_string(), text("outer_a_val")),
    ]);
    let sorted_value = sort_json_object(&json_value);
    assert_eq!(keys(&sorted_value), vec!["outer_a", "outer_z"]);
    match &sorted_value {
        JsonTree::Object(members) => {
            assert_eq!(keys(&members[1].1), vec!["inner_a", "inner_z"]);
        },
        _ => panic!("Expected JSON object"),
    }
}

#[test]
fn sorting_reaches_into_arrays_and_keeps_other_values() {
    let tree = JsonTree::Array(vec![
        JsonTree::Object(vec![
            ("b".to_string(), JsonTree::Null),
            ("a".to_string(), JsonTree::Bool(true)),
            ("b".to_string(), JsonTree::Number("1.5".to_string())),
        ]),
        JsonTree::Number("7".to_string()),
        text("t"),
    ]);
    let sorted = sort_json_object(&tree);
    assert_eq!(
        format!("{:?}", sorted),
        "Array([Object([(\"a\", Bool(true)), (\"b\", Null), (\"b\", Number(\"1.5\"))]), Number(\"7\"), Text(\"t\")])"
    );
    assert_eq!(format!("{:?}", copy_tree(&tree)), format!("{:?}", tree));
    assert_eq!(format!("{:?}", sort_json_object(&JsonTree::Null)), "Null");
}
