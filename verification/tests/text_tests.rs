use mods_localizer::numbers::{push_decimal, push_digits, push_text};
use mods_localizer::text::{
    chars_of, contains, copy_range, ends_with, find_from, is_whitespace, join_lines,
    last_segment_start, leading_white_space, matches_at, split_lines, starts_with, string_of,
    string_of_range, to_slashes, trailing_cut, trim, trim_end, trim_start,
};
use mods_localizer::text_map::TextMap;

fn text(v: &Vec<char>) -> String {
    v.iter().collect()
}

#[test]
fn white_space_agrees_with_std_on_every_char() {
    let mut code: u32 = 0;
    while code <= 0x10FFFF {
        if let Some(c) = char::from_u32(code) {
            assert_eq!(is_whitespace(c), c.is_whitespace());
        }
        code += 1;
    }
}

#[test]
fn chars_and_strings_convert_both_ways() {
    let v = chars_of("aß→𝄞");
    assert_eq!(v, vec!['a', 'ß', '→', '𝄞']);
    assert_eq!(string_of(&v), "aß→𝄞");
    assert_eq!(string_of_range(&v, 1, 3), "ß→");
    assert_eq!(copy_range(&v, 2, 4), vec!['→', '𝄞']);
    assert_eq!(chars_of(""), Vec::<char>::new());
}

#[test]
fn trimming_agrees_with_std() {
    let samples = [
        "",
        " ",
        "  a b  ",
        "\t\r\n x\u{3000}",
        "\u{a0}\u{2003}key = value\u{85}",
        "no-space",
        "   ",
    ];
    for s in samples {
        let v = chars_of(s);
        assert_eq!(text(&trim(&v)), s.trim());
        assert_eq!(text(&trim_start(&v)), s.trim_start());
        assert_eq!(text(&trim_end(&v)), s.trim_end());
    }
    let v = chars_of("  ab ");
    assert_eq!(leading_white_space(&v), 2);
    assert_eq!(trailing_cut(&v, 0), 4);
    assert_eq!(trailing_cut(&chars_of("   "), 1), 1);
}

#[test]
fn lines_agree_with_std() {
    let samples = [
        "",
        "\n",
        "a",
        "a\n",
        "a\nb",
        "a\r\nb\r\n",
        "a\n\nb\n",
        "a\r",
        "\r\n",
        "x\r\r\ny",
        "last\n\n",
    ];
    for s in samples {
        let lines: Vec<String> = split_lines(&chars_of(s)).iter().map(text).collect();
        let expected: Vec<String> = s.lines().map(|l| l.to_string()).collect();
        assert_eq!(lines, expected, "lines of {:?}", s);
    }
}

#[test]
fn joining_puts_one_line_feed_between_lines() {
    let lines = vec![chars_of("a"), chars_of(""), chars_of("b c")];
    assert_eq!(text(&join_lines(&lines)), "a\n\nb c");
    assert_eq!(text(&join_lines(&vec![chars_of("only")])), "only");
    assert_eq!(text(&join_lines(&Vec::new())), "");
}

#[test]
fn searching_agrees_with_std() {
    let hay = chars_of("assets/mod/lang/en_us.json");
    assert!(contains(&hay, &chars_of("/lang/")));
    assert!(!contains(&hay, &chars_of("/lang2/")));
    assert!(contains(&hay, &chars_of("")));
    assert!(contains(&hay, &hay));
    assert!(!contains(&chars_of("ab"), &chars_of("abc")));
    assert!(starts_with(&hay, &chars_of("assets/")));
    assert!(!starts_with(&hay, &chars_of("asset/")));
    assert!(ends_with(&hay, &chars_of(".json")));
    assert!(!ends_with(&hay, &chars_of(".lang")));
    assert!(!ends_with(&chars_of("on"), &chars_of(".json")));
    assert!(matches_at(&hay, &chars_of("mod"), 7));
    assert!(!matches_at(&hay, &chars_of("mod"), 8));
    assert!(!matches_at(&hay, &chars_of("json"), 40));
    assert_eq!(find_from(&hay, '/', 0), 6);
    assert_eq!(find_from(&hay, '/', 7), 10);
    assert_eq!(find_from(&hay, '?', 0), hay.len());
}

#[test]
fn last_segment_starts_after_the_last_slash() {
    assert_eq!(last_segment_start(&chars_of("a/b/c.json")), 4);
    assert_eq!(last_segment_start(&chars_of("c.json")), 0);
    assert_eq!(last_segment_start(&chars_of("a/b/")), 4);
    assert_eq!(last_segment_start(&chars_of("")), 0);
}

#[test]
fn backslashes_become_slashes() {
    assert_eq!(text(&to_slashes(&chars_of("assets\\m\\lang/x.json"))), "assets/m/lang/x.json");
    assert_eq!(text(&to_slashes(&chars_of("plain"))), "plain");
}

#[test]
fn decimal_notation_agrees_with_std() {
    for n in [0i64, 7, 10, 42, 1000, -1, -10, i64::MAX, i64::MIN, 234] {
        let mut out = Vec::new();
        push_decimal(&mut out, n);
        assert_eq!(text(&out), n.to_string());
    }
    let mut out = chars_of("n=");
    push_digits(&mut out, 18446744073709551615);
    push_text(&mut out, "!");
    assert_eq!(text(&out), "n=18446744073709551615!");
}

#[test]
fn text_map_keeps_one_value_per_key() {
    let mut m = TextMap::new();
    assert!(m.is_empty());
    assert_eq!(m.get("a"), None);
    m.insert("a".to_string(), "1".to_string());
    m.insert("b".to_string(), "2".to_string());
    m.insert("a".to_string(), "3".to_string());
    assert_eq!(m.len(), 2);
    assert!(!m.is_empty());
    assert_eq!(m.get("a"), Some("3".to_string()));
    assert_eq!(m.get("b"), Some("2".to_string()));
    assert!(m.contains_key("b"));
    assert!(!m.contains_key("c"));
    assert_eq!(m.entry(0), ("a".to_string(), "3".to_string()));
    assert_eq!(
        m.to_pairs(),
        vec![("a".to_string(), "3".to_string()), ("b".to_string(), "2".to_string())]
    );
}
