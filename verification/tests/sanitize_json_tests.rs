use mods_localizer::json::{
    json_string, json_text_map, parse_relaxed, parse_strict, pretty_text, reescape,
    relaxed_json_parse, repair_lines, strip_json_comments, text_map_of,
};
use mods_localizer::sanitize::{clean_chars, clean_json_string, sanitize};
use mods_localizer::text::chars_of;
use mods_localizer::text_map::TextMap;

fn text(v: &Vec<char>) -> String {
    v.iter().collect()
}

#[test]
fn sanitize_strips_the_byte_order_mark() {
    assert_eq!(sanitize(b"\xEF\xBB\xBF{\"a\":1}"), "{\"a\":1}");
    assert_eq!(sanitize(b"\xEF\xBB"), "\u{fffd}");
    assert_eq!(sanitize(b""), "");
}

#[test]
fn sanitize_drops_zero_bytes_and_blanks_control_bytes() {
    assert_eq!(sanitize(b"a\x00b"), "ab");
    assert_eq!(sanitize(b"a\x01b\x1fc"), "a b c");
    assert_eq!(sanitize(b"a\tb\nc\rd"), "a\tb\nc\rd");
    assert_eq!(sanitize(b"\x00\x00"), "");
    assert_eq!(sanitize(b"x\x7fy"), "x\x7fy");
}

#[test]
fn sanitize_replaces_invalid_utf8() {
    assert_eq!(sanitize(b"a\xffb"), "a\u{fffd}b");
    assert_eq!(sanitize("テスト".as_bytes()), "テスト");
    assert_eq!(sanitize(b"\xe3\x83"), "\u{fffd}");
}

#[test]
fn clean_json_string_removes_marks_and_control_characters() {
    assert_eq!(clean_json_string("\u{feff}\u{feff}{\"a\": \"b\u{1}c\"}"), "{\"a\": \"b c\"}");
    assert_eq!(clean_json_string("a\u{0}b\u{0}"), "ab");
    assert_eq!(clean_json_string("\u{0}"), "");
    assert_eq!(clean_json_string("\u{0}\u{feff}x\u{1f}"), "\u{feff}x ");
    assert_eq!(clean_json_string("a\tb\nc\rd"), "a\tb\nc\rd");
    assert_eq!(clean_json_string("x\u{feff}y"), "x\u{feff}y");
    assert_eq!(text(&clean_chars(&chars_of("\u{0}q"))), "q");
}

#[test]
fn strict_parse_takes_valid_json_only() {
    assert!(parse_strict("{\"a\": \"b\"}").is_some());
    assert!(parse_strict("[1, 2]").is_some());
    assert!(parse_strict("{\"a\": \"b\",}").is_none());
    assert!(parse_strict("").is_none());
}

#[test]
fn valid_json_is_parsed_as_it_stands() {
    let source = "{\n  \"_comment\": \"kept\",\n  \"a\": \"b\"\n}";
    let doc = parse_relaxed(source, "x.json").unwrap();
    assert_eq!(Some(doc.clone()), parse_strict(source));
    assert_eq!(relaxed_json_parse(source), parse_strict(source));
    assert_eq!(json_string(&doc, "_comment"), Some("kept".to_string()));
    assert_eq!(strip_json_comments(source), source);
}

#[test]
fn reescape_keeps_valid_escapes_and_drops_the_backslash_of_others() {
    assert_eq!(text(&reescape(&chars_of(r#"{"a": "x\n\"y\" é \/"}"#))), r#"{"a": "x\n\"y\" é \/"}"#);
    assert_eq!(text(&reescape(&chars_of(r#"{"a": "x\qy"}"#))), r#"{"a": "xqy"}"#);
    assert_eq!(text(&reescape(&chars_of("{\"a\": \"x\u{1}y\"}"))), "{\"a\": \"x y\"}");
    assert_eq!(text(&reescape(&chars_of("\u{1}{\"a\": 1}"))), "\u{1}{\"a\": 1}");
    assert_eq!(text(&reescape(&chars_of(r#""a\"#))), r#""a"#);
    assert_eq!(text(&reescape(&chars_of(r#""\u12"#))), r#""\u12"#);
    assert_eq!(text(&reescape(&chars_of(r#"a\b"#))), r#"a\b"#);
}

#[test]
fn second_step_recovers_invalid_escapes() {
    let source = r#"{"text": "50\% more"}"#;
    assert!(parse_strict(source).is_none());
    let doc = relaxed_json_parse(source).unwrap();
    assert_eq!(json_string(&doc, "text"), Some("50% more".to_string()));
    let doc = parse_relaxed(source, "p.json").unwrap();
    assert_eq!(json_string(&doc, "text"), Some("50% more".to_string()));
}

#[test]
fn line_repair_drops_comments_and_the_dangling_comma() {
    let source = "{\n  \"_comment\": \"x\",\n  // note\n\n  \"a\": \"b\",\n  \"c\": \"d\", \n}\n";
    assert_eq!(text(&repair_lines(&chars_of(source))), "{\n  \"a\": \"b\",\n  \"c\": \"d\"\n}");
    assert_eq!(text(&repair_lines(&chars_of("{\n\"a\": 1,,,\n}"))), "{\n\"a\": 1\n}");
    assert_eq!(text(&repair_lines(&chars_of("\"a\": 1,\n"))), "\"a\": 1,");
    assert_eq!(text(&repair_lines(&chars_of("}\n\"a\",\n"))), "}\n\"a\",");
    assert_eq!(text(&repair_lines(&chars_of("a,\n}\nb,\n}"))), "a,\n}\nb\n}");
    assert_eq!(text(&repair_lines(&chars_of(""))), "");
}

#[test]
fn comment_and_trailing_comma_are_recovered() {
    let source = "{\n  \"_comment\": \"made by hand\",\n  \"item.a\": \"A\",\n  \"item.b\": \"B\",\n}";
    assert!(parse_strict(source).is_none());
    let doc = parse_relaxed(source, "assets/m/lang/en_us.json").unwrap();
    let map = json_text_map(&doc).unwrap();
    assert_eq!(map.len(), 2);
    assert_eq!(map.get("item.a"), Some("A".to_string()));
    assert_eq!(map.get("item.b"), Some("B".to_string()));
    assert_eq!(map.get("_comment"), None);
    let stripped = strip_json_comments(source);
    assert_eq!(stripped, "{\n  \"item.a\": \"A\",\n  \"item.b\": \"B\"\n}");
    let again = relaxed_json_parse(source).unwrap();
    assert_eq!(json_string(&again, "item.a"), Some("A".to_string()));
    assert_eq!(json_string(&again, "_comment"), None);
    assert_eq!(Some(again), parse_strict(&stripped));
}

#[test]
fn text_beyond_recovery_is_reported_with_its_path() {
    let e = parse_relaxed("{ not json", "assets/m/lang/en_us.json").unwrap_err();
    assert_eq!(e.path, "assets/m/lang/en_us.json");
    assert!(relaxed_json_parse("{ not json").is_none());
}

#[test]
fn string_members_are_read_from_objects_only() {
    let doc = parse_strict(r#"{"id": "m", "n": 1, "o": {"id": "inner"}}"#).unwrap();
    assert_eq!(json_string(&doc, "id"), Some("m".to_string()));
    assert_eq!(json_string(&doc, "n"), None);
    assert_eq!(json_string(&doc, "o"), None);
    assert_eq!(json_string(&doc, "missing"), None);
    let list = parse_strict(r#"["id"]"#).unwrap();
    assert_eq!(json_string(&list, "id"), None);
}

#[test]
fn flat_mapping_needs_an_object_of_strings() {
    let doc = parse_strict(r#"{"b": "2", "a": "1", "b": "3"}"#).unwrap();
    let map = json_text_map(&doc).unwrap();
    assert_eq!(map.len(), 2);
    assert_eq!(map.get("a"), Some("1".to_string()));
    assert_eq!(map.get("b"), Some("3".to_string()));
    assert!(json_text_map(&parse_strict(r#"{"a": 1}"#).unwrap()).is_none());
    assert!(json_text_map(&parse_strict(r#"["a"]"#).unwrap()).is_none());
    assert!(json_text_map(&parse_strict("null").unwrap()).is_none());
    assert_eq!(json_text_map(&parse_strict("{}").unwrap()).unwrap().len(), 0);
}

#[test]
fn pretty_text_prints_members_in_key_order() {
    let map = text_map_of(vec![
        ("zebra".to_string(), "Z".to_string()),
        ("apple".to_string(), "A".to_string()),
    ]);
    assert_eq!(pretty_text(&map), Some("{\n  \"apple\": \"A\",\n  \"zebra\": \"Z\"\n}".to_string()));
    assert_eq!(pretty_text(&TextMap::new()), Some("{}".to_string()));
}
