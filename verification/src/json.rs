//! Lenient JSON recovery: a strict parse first, then two repairs of the text,
//! each followed by another strict parse.

use crate::sanitize::{clean_chars, cleaned, is_control_char};
use crate::text::{
    chars_of, copy_range, find_from, has_prefix, join_lines, joined, leading_white_space,
    lines_of, split_lines, starts_with, string_of, trailing_cut, trimmed_end,
    trimmed_start, views_of,
};
use crate::text_map::{distinct_keys, map_of, Pair, TextMap};
use serde_json::Value;
use std::collections::BTreeMap;
use vstd::prelude::*;

verus! {

/// `serde_json::Value`, a parsed JSON document.
#[verifier::external_type_specification]
#[verifier::external_body]
pub struct ExJsonValue(Value);

/// `serde_json::Error`, the error of the JSON parser.
#[verifier::external_type_specification]
#[verifier::external_body]
pub struct ExJsonError(serde_json::Error);

/// `serde_json::Map`, the members of a JSON object.
#[verifier::external_type_specification]
#[verifier::external_body]
#[verifier::reject_recursive_types(K)]
#[verifier::reject_recursive_types(V)]
pub struct ExJsonMap<K, V>(serde_json::Map<K, V>);

/// The document that a strict JSON parse makes of a text, if the text is
/// valid JSON.
pub uninterp spec fn json_of(text: Seq<char>) -> Option<Value>;

/// The members of a JSON object whose values are strings, by their keys.
/// Empty for a document that is not an object.
pub uninterp spec fn json_strings(doc: Value) -> Map<Seq<char>, Seq<char>>;

/// The document is an object and every member of it is a string.
pub uninterp spec fn json_is_flat(doc: Value) -> bool;

/// The members of an object under construction whose values are strings, by
/// their keys.
pub uninterp spec fn object_texts(m: serde_json::Map<String, Value>) -> Map<Seq<char>, Seq<char>>;

/// Every member of the object under construction is a string.
pub uninterp spec fn object_is_flat(m: serde_json::Map<String, Value>) -> bool;

/// The indented JSON text of the object that has the given members, in the
/// order of their keys.
pub uninterp spec fn json_pretty(members: Map<Seq<char>, Seq<char>>) -> Option<Seq<char>>;

/// `serde_json::from_str` into a `Value`: the strict parse.  Whether it
/// succeeds and what it yields depends on the text alone.
#[verifier::external_body]
fn strict_parse(text: &str) -> (r: Result<Value, serde_json::Error>)
    ensures
        r is Ok <==> json_of(text@) is Some,
        r matches Ok(doc) ==> json_of(text@) == Some(doc),
{
    serde_json::from_str::<Value>(text)
}

/// `Value::get` with a string index, then `Value::as_str`: the member of
/// that name, if the document is an object, has it, and it is a string.
#[verifier::external_body]
fn string_member(doc: &Value, key: &str) -> (r: Option<String>)
    ensures
        r is Some <==> json_strings(*doc).dom().contains(key@),
        r matches Some(s) ==> s@ == json_strings(*doc)[key@],
{
    doc.get(key).and_then(|member| member.as_str()).map(|s| s.to_string())
}

/// `serde_json::from_value` into a map of strings: succeeds on an object
/// whose members are all strings, and yields them in the order of their
/// keys, each key once.
#[verifier::external_body]
fn string_members(doc: &Value) -> (r: Option<Vec<(String, String)>>)
    ensures
        r is Some <==> json_is_flat(*doc),
        r matches Some(pairs) ==> {
            &&& distinct_keys(pair_views(pairs@))
            &&& map_of(pair_views(pairs@)) == json_strings(*doc)
        },
{
    match serde_json::from_value::<BTreeMap<String, String>>(doc.clone()) {
        Ok(members) => Some(members.into_iter().collect()),
        Err(_) => None,
    }
}

/// The mapping without any key.
pub open spec fn no_members() -> Map<Seq<char>, Seq<char>> {
    Map::empty()
}

/// `serde_json::Map::new`: an object without members.
#[verifier::external_body]
fn object_new() -> (made: serde_json::Map<String, Value>)
    ensures
        object_texts(made) == no_members(),
        object_is_flat(made),
{
    serde_json::Map::new()
}

/// `serde_json::Map::insert` of a string value: the member of that key is
/// now that text, whether or not the key was there; the other members stay.
#[verifier::external_body]
fn object_insert(m: &mut serde_json::Map<String, Value>, key: String, text: String)
    ensures
        object_texts(*final(m)) == object_texts(*old(m)).insert(key@, text@),
        object_is_flat(*old(m)) ==> object_is_flat(*final(m)),
{
    m.insert(key, Value::String(text));
}

/// `serde_json::to_string_pretty` on an object whose members are all
/// strings: the text depends on the members alone, which the object holds in
/// the order of their keys.
#[verifier::external_body]
fn object_pretty(m: &serde_json::Map<String, Value>) -> (r: Option<String>)
    requires
        object_is_flat(*m),
    ensures
        r is Some <==> json_pretty(object_texts(*m)) is Some,
        r matches Some(s) ==> json_pretty(object_texts(*m)) == Some(s@),
{
    serde_json::to_string_pretty(m).ok()
}

/// The pairs as texts.
pub open spec fn pair_views(pairs: Seq<(String, String)>) -> Seq<Pair> {
    pairs.map_values(|p: (String, String)| (p.0@, p.1@))
}

/// Failure of every step of the recovery ladder on the text of one file.
#[derive(Debug)]
pub struct ParseError {
    /// The file whose text could not be parsed.
    pub path: String,
}

/// State of the scan that re-escapes a JSON text.
pub struct Scan {
    /// The scan is inside a string literal.
    pub in_string: bool,
    /// The character before was a backslash that opened an escape.
    pub escaped: bool,
    /// Number of characters still to be copied as they are (after `\u`).
    pub raw: nat,
}

/// A character that forms a valid JSON escape behind a backslash (`u` apart).
pub open spec fn keeps_backslash(c: char) -> bool {
    c == '\\' || c == '"' || c == '/' || c == 'b' || c == 'f' || c == 'n' || c == 'r' || c == 't'
}

/// One step of the scan: the state after `c`, and what `c` contributes to
/// the output.
pub open spec fn scan_step(st: Scan, c: char) -> (Scan, Seq<char>) {
    if st.raw > 0 {
        (Scan { raw: (st.raw - 1) as nat, ..st }, seq![c])
    } else if st.escaped {
        if keeps_backslash(c) {
            (Scan { escaped: false, ..st }, seq!['\\', c])
        } else if c == 'u' {
            (Scan { escaped: false, raw: 4, ..st }, seq!['\\', 'u'])
        } else {
            (Scan { escaped: false, ..st }, seq![c])
        }
    } else if c == '\\' && st.in_string {
        (Scan { escaped: true, ..st }, Seq::empty())
    } else if c == '"' {
        (Scan { in_string: !st.in_string, ..st }, seq![c])
    } else if st.in_string && is_control_char(c) {
        (st, seq![' '])
    } else {
        (st, seq![c])
    }
}

/// What the rest `s` of a text contributes when the scan stands in state `st`.
pub open spec fn reescaped_from(s: Seq<char>, st: Scan) -> Seq<char>
    decreases s.len(),
{
    if s.len() == 0 {
        Seq::empty()
    } else {
        scan_step(st, s[0]).1 + reescaped_from(s.skip(1), scan_step(st, s[0]).0)
    }
}

/// The text after the re-escape pass: valid escapes pass through, the
/// backslash of any other escape is dropped, and a control character inside
/// a string literal becomes a space.
pub open spec fn reescaped(s: Seq<char>) -> Seq<char> {
    reescaped_from(s, Scan { in_string: false, escaped: false, raw: 0 })
}

/// The re-escape pass over a text.
pub fn reescape(s: &Vec<char>) -> (out: Vec<char>)
    ensures
        out@ == reescaped(s@),
{
    let mut out: Vec<char> = Vec::new();
    let mut in_string = false;
    let mut escaped = false;
    let mut raw: u8 = 0;
    let mut i: usize = 0;
    assert(s@.skip(0) == s@);
    while i < s.len()
        invariant
            i <= s.len(),
            raw <= 4,
            reescaped(s@) == out@ + reescaped_from(
                s@.skip(i as int),
                Scan { in_string, escaped, raw: raw as nat },
            ),
        decreases s.len() - i,
    {
        let c = s[i];
        let ghost st = Scan { in_string, escaped, raw: raw as nat };
        let ghost before = out@;
        if raw > 0 {
            out.push(c);
            raw -= 1;
        } else if escaped {
            if c == '\\' || c == '"' || c == '/' || c == 'b' || c == 'f' || c == 'n' || c == 'r'
                || c == 't' {
                out.push('\\');
                out.push(c);
            } else if c == 'u' {
                out.push('\\');
                out.push('u');
                raw = 4;
            } else {
                out.push(c);
            }
            escaped = false;
        } else if c == '\\' && in_string {
            escaped = true;
        } else if c == '"' {
            in_string = !in_string;
            out.push(c);
        } else {
            let code: u32 = c as u32;
            if in_string && code < 0x20 && c != '\t' && c != '\n' && c != '\r' {
                out.push(' ');
            } else {
                out.push(c);
            }
        }
        proof {
            assert(s@.skip(i as int)[0] == c);
            assert(s@.skip(i as int).skip(1) == s@.skip(i + 1));
            assert(scan_step(st, c).0 == Scan { in_string, escaped, raw: raw as nat });
            assert(out@ =~= before + scan_step(st, c).1);
            assert(before + (scan_step(st, c).1 + reescaped_from(
                s@.skip(i + 1),
                scan_step(st, c).0,
            )) =~= out@ + reescaped_from(s@.skip(i + 1), scan_step(st, c).0));
        }
        i += 1;
    }
    assert(out@ + Seq::<char>::empty() =~= out@);
    out
}

/// A line that the repair drops: a `"_comment"` member, a `//` comment, or a
/// blank line.
pub open spec fn is_dropped_line(line: Seq<char>) -> bool {
    let t = trimmed_start(line);
    has_prefix(t, "\"_comment\""@) || has_prefix(t, "//"@) || t.len() == 0
}

/// The lines that the repair keeps, in order.
pub open spec fn kept_lines(lines: Seq<Seq<char>>) -> Seq<Seq<char>>
    decreases lines.len(),
{
    if lines.len() == 0 {
        Seq::empty()
    } else if is_dropped_line(lines.last()) {
        kept_lines(lines.drop_last())
    } else {
        kept_lines(lines.drop_last()).push(lines.last())
    }
}

/// Index of the last line that holds a closing brace; -1 if none does.
pub open spec fn last_closing(lines: Seq<Seq<char>>) -> int
    decreases lines.len(),
{
    if lines.len() == 0 {
        -1
    } else if lines.last().contains('}') {
        lines.len() - 1
    } else {
        last_closing(lines.drop_last())
    }
}

/// `s` without the commas at its end.
pub open spec fn without_trailing_commas(s: Seq<char>) -> Seq<char>
    decreases s.len(),
{
    if s.len() > 0 && s.last() == ',' {
        without_trailing_commas(s.drop_last())
    } else {
        s
    }
}

/// The lines with the trailing comma removed from the line before the last
/// closing brace.
pub open spec fn without_dangling_comma(lines: Seq<Seq<char>>) -> Seq<Seq<char>> {
    let at = last_closing(lines);
    if at > 0 && at < lines.len() {
        let before = trimmed_end(lines[at - 1]);
        if before.len() > 0 && before.last() == ',' {
            lines.update(at - 1, trimmed_end(without_trailing_commas(before)))
        } else {
            lines
        }
    } else {
        lines
    }
}

/// The text after the line-oriented repair.
pub open spec fn repaired(s: Seq<char>) -> Seq<char> {
    joined(without_dangling_comma(kept_lines(lines_of(s))))
}

fn holds_closing_brace(line: &Vec<char>) -> (b: bool)
    ensures
        b == line@.contains('}'),
{
    let at = find_from(line, '}', 0);
    proof {
        crate::text::lemma_position_from(line@, '}', 0);
    }
    at < line.len()
}

fn is_dropped(line: &Vec<char>) -> (b: bool)
    ensures
        b == is_dropped_line(line@),
{
    let n = leading_white_space(line);
    let t = copy_range(line, n, line.len());
    let comment = chars_of("\"_comment\"");
    let slashes = chars_of("//");
    starts_with(&t, &comment) || starts_with(&t, &slashes) || t.len() == 0
}

fn strip_dangling(line: &Vec<char>) -> (r: Option<Vec<char>>)
    ensures
        match r {
            Some(fixed) => {
                &&& trimmed_end(line@).len() > 0
                &&& trimmed_end(line@).last() == ','
                &&& fixed@ == trimmed_end(without_trailing_commas(trimmed_end(line@)))
            },
            None => !(trimmed_end(line@).len() > 0 && trimmed_end(line@).last() == ','),
        },
{
    assert(line@.skip(0) == line@);
    let n = trailing_cut(line, 0);
    if n == 0 || line[n - 1] != ',' {
        return None;
    }
    let before = copy_range(line, 0, n);
    let mut j: usize = n;
    assert(before@.take(j as int) == before@);
    while j > 0 && before[j - 1] == ','
        invariant
            j <= before.len(),
            without_trailing_commas(before@) == without_trailing_commas(before@.take(j as int)),
        decreases j,
    {
        assert(before@.take(j as int).drop_last() == before@.take(j - 1));
        j -= 1;
    }
    let cut = copy_range(&before, 0, j);
    assert(cut@ == without_trailing_commas(before@));
    assert(cut@.skip(0) == cut@);
    let m = trailing_cut(&cut, 0);
    Some(copy_range(&cut, 0, m))
}

/// Repairs a text line by line: drops `"_comment"` members, `//` comments and
/// blank lines, and removes the trailing comma of the line before the last
/// closing brace.
pub fn repair_lines(s: &Vec<char>) -> (out: Vec<char>)
    ensures
        out@ == repaired(s@),
{
    let lines = split_lines(s);
    let mut kept: Vec<Vec<char>> = Vec::new();
    let mut closing: Option<usize> = None;
    let mut i: usize = 0;
    assert(views_of(lines@).take(0) =~= Seq::<Seq<char>>::empty());
    assert(views_of(kept@) =~= Seq::<Seq<char>>::empty());
    while i < lines.len()
        invariant
            i <= lines.len(),
            views_of(kept@) == kept_lines(views_of(lines@).take(i as int)),
            match closing {
                Some(at) => at < kept.len() && at == last_closing(views_of(kept@)),
                None => last_closing(views_of(kept@)) == -1,
            },
        decreases lines.len() - i,
    {
        let line = &lines[i];
        let ghost all = views_of(lines@);
        let ghost before = views_of(kept@);
        proof {
            assert(all.take(i + 1).drop_last() == all.take(i as int));
            assert(all.take(i + 1).last() == line@);
        }
        if !is_dropped(line) {
            let has = holds_closing_brace(line);
            kept.push(copy_range(line, 0, line.len()));
            proof {
                assert(line@.subrange(0, line@.len() as int) == line@);
                assert(views_of(kept@) =~= before.push(line@));
                assert(views_of(kept@).drop_last() == before);
            }
            if has {
                closing = Some(kept.len() - 1);
            }
        }
        i += 1;
    }
    proof {
        assert(views_of(lines@).take(lines@.len() as int) == views_of(lines@));
    }
    match closing {
        Some(at) => {
            if at > 0 {
                match strip_dangling(&kept[at - 1]) {
                    Some(fixed) => {
                        let ghost before = views_of(kept@);
                        kept.set(at - 1, fixed);
                        assert(views_of(kept@) =~= before.update(at - 1, fixed@));
                    },
                    None => {},
                }
            }
        },
        None => {},
    }
    join_lines(&kept)
}

/// The document that the recovery ladder makes of a text: the strict parse of
/// the text itself, else of its re-escaped form, else of its repaired form.
pub open spec fn relaxed_json(text: Seq<char>) -> Option<Value> {
    if json_of(text) is Some {
        json_of(text)
    } else if json_of(reescaped(text)) is Some {
        json_of(reescaped(text))
    } else {
        json_of(repaired(text))
    }
}

/// Parses a text as JSON, leniently: the strict parse of the text itself,
/// else of its re-escaped form, else of its line-repaired form.  A text that
/// parses strictly is parsed as it stands.
pub fn relaxed_json_parse(json: &str) -> (r: Option<Value>)
    ensures
        r == relaxed_json(json@),
{
    match strict_parse(json) {
        Ok(doc) => {
            return Some(doc);
        },
        Err(_) => {},
    }
    let chars = chars_of(json);
    let second = string_of(&reescape(&chars));
    match strict_parse(second.as_str()) {
        Ok(doc) => {
            return Some(doc);
        },
        Err(_) => {},
    }
    let third = string_of(&repair_lines(&chars));
    match strict_parse(third.as_str()) {
        Ok(doc) => Some(doc),
        Err(_) => None,
    }
}

/// Parses a sanitized text as JSON, leniently, as `relaxed_json_parse` does.
/// `path` names the file for the error.
pub fn parse_relaxed(text: &str, path: &str) -> (r: Result<Value, ParseError>)
    ensures
        match r {
            Ok(doc) => relaxed_json(text@) == Some(doc),
            Err(e) => relaxed_json(text@) is None && e.path@ == path@,
        },
{
    match relaxed_json_parse(text) {
        Some(doc) => Ok(doc),
        None => Err(ParseError { path: path.to_owned() }),
    }
}

/// The text that `strip_json_comments` returns.
pub open spec fn stripped(text: Seq<char>) -> Seq<char> {
    let clean = cleaned(text);
    if json_of(clean) is Some {
        clean
    } else if json_of(reescaped(clean)) is Some {
        reescaped(clean)
    } else {
        repaired(clean)
    }
}

/// Prepares the text of a language file for parsing.  The text is cleaned;
/// if it is then valid JSON it is returned as it stands.  Otherwise its
/// re-escaped form is returned if that is valid JSON, and its line-repaired
/// form if not.
pub fn strip_json_comments(json: &str) -> (out: String)
    ensures
        out@ == stripped(json@),
{
    let chars = clean_chars(&chars_of(json));
    let clean = string_of(&chars);
    match strict_parse(clean.as_str()) {
        Ok(_) => {
            return clean;
        },
        Err(_) => {},
    }
    let second = string_of(&reescape(&chars));
    match strict_parse(second.as_str()) {
        Ok(_) => {
            return second;
        },
        Err(_) => {},
    }
    string_of(&repair_lines(&chars))
}

/// Parses a text as JSON, strictly.
pub fn parse_strict(text: &str) -> (r: Option<Value>)
    ensures
        r == json_of(text@),
{
    match strict_parse(text) {
        Ok(doc) => Some(doc),
        Err(_) => None,
    }
}

/// The string member `key` of a document.
pub fn json_string(doc: &Value, key: &str) -> (r: Option<String>)
    ensures
        r is Some <==> json_strings(*doc).dom().contains(key@),
        r matches Some(s) ==> s@ == json_strings(*doc)[key@],
{
    string_member(doc, key)
}

/// The flat key-to-text mapping of a document: `Some` exactly if the document
/// is an object whose members are all strings.
pub fn json_text_map(doc: &Value) -> (r: Option<TextMap>)
    ensures
        r is Some <==> json_is_flat(*doc),
        r matches Some(m) ==> m@ == json_strings(*doc),
{
    match string_members(doc) {
        None => None,
        Some(pairs) => Some(text_map_of(pairs)),
    }
}

/// The mapping that holds the given pairs, a later one overriding an earlier
/// one with the same key.
pub fn text_map_of(pairs: Vec<(String, String)>) -> (m: TextMap)
    ensures
        m@ == map_of(pair_views(pairs@)),
{
    let mut m = TextMap::new();
    let mut i: usize = 0;
    assert(pair_views(pairs@).take(0) =~= Seq::<Pair>::empty());
    while i < pairs.len()
        invariant
            i <= pairs.len(),
            m@ == map_of(pair_views(pairs@).take(i as int)),
        decreases pairs.len() - i,
    {
        let key = pairs[i].0.clone();
        let value = pairs[i].1.clone();
        proof {
            let all = pair_views(pairs@);
            assert(all.take(i + 1).drop_last() == all.take(i as int));
            assert(all.take(i + 1).last() == (key@, value@));
        }
        m.insert(key, value);
        i += 1;
    }
    assert(pair_views(pairs@).take(pairs@.len() as int) == pair_views(pairs@));
    m
}

/// The mapping as indented JSON text.
pub fn pretty_text(members: &TextMap) -> (r: Option<String>)
    ensures
        r is Some <==> json_pretty(members@) is Some,
        r matches Some(s) ==> json_pretty(members@) == Some(s@),
{
    let pairs = members.to_pairs();
    let mut object = object_new();
    let mut i: usize = 0;
    proof {
        assert(pair_views(pairs@) =~= members.pairs());
        assert(pair_views(pairs@).take(0) =~= Seq::<Pair>::empty());
    }
    while i < pairs.len()
        invariant
            i <= pairs.len(),
            object_is_flat(object),
            object_texts(object) == map_of(pair_views(pairs@).take(i as int)),
        decreases pairs.len() - i,
    {
        let key = pairs[i].0.clone();
        let text = pairs[i].1.clone();
        proof {
            let all = pair_views(pairs@);
            assert(all.take(i + 1).drop_last() == all.take(i as int));
            assert(all.take(i + 1).last() == (key@, text@));
        }
        object_insert(&mut object, key, text);
        i += 1;
    }
    proof {
        assert(pair_views(pairs@).take(pairs@.len() as int) == pair_views(pairs@));
    }
    object_pretty(&object)
}

} // verus!
