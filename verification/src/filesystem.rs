//! File system errors and the small decisions of the directory scans.

use crate::json::{json_pretty, json_text_map, parse_strict, pretty_text};
use crate::rewrite::book_members;
use crate::sorting::{by_text, sort_texts};
use crate::text::{
    chars_of, contains, has_infix, has_prefix, join_lines, joined, starts_with, string_of,
    texts_of, views_of,
};
use crate::text_map::{Pair, TextMap};
use vstd::prelude::*;
use vstd::string::StringExecFns;

verus! {

/// File system errors.
#[derive(Debug)]
pub enum FileSystemError {
    Io(String),
    Path(String),
    NotFound(String),
    InvalidFileType(String),
    Dialog(String),
    TauriFs(String),
}

impl FileSystemError {
    /// The text of `message`.
    pub open spec fn text(&self) -> Seq<char> {
        match self {
            FileSystemError::Io(m) => "IO error: "@ + m@,
            FileSystemError::Path(m) => "Path error: "@ + m@,
            FileSystemError::NotFound(m) => "File not found: "@ + m@,
            FileSystemError::InvalidFileType(m) => "Invalid file type: "@ + m@,
            FileSystemError::Dialog(m) => "Dialog error: "@ + m@,
            FileSystemError::TauriFs(m) => "Tauri FS error: "@ + m@,
        }
    }

    /// A line of text for the user.
    pub fn message(&self) -> (s: String)
        ensures
            s@ == self.text(),
    {
        match self {
            FileSystemError::Io(m) => String::from_str("IO error: ").concat(m.as_str()),
            FileSystemError::Path(m) => String::from_str("Path error: ").concat(m.as_str()),
            FileSystemError::NotFound(m) => String::from_str("File not found: ").concat(m.as_str()),
            FileSystemError::InvalidFileType(m) => String::from_str("Invalid file type: ").concat(
                m.as_str(),
            ),
            FileSystemError::Dialog(m) => String::from_str("Dialog error: ").concat(m.as_str()),
            FileSystemError::TauriFs(m) => String::from_str("Tauri FS error: ").concat(m.as_str()),
        }
    }
}

/// A file name carries the mark of a language that files are translated to,
/// such as `.ja_jp.`: the file is a translation already.
pub open spec fn names_translation(file_name: Seq<char>) -> bool {
    ||| has_infix(file_name, ".ja_jp."@)
    ||| has_infix(file_name, ".zh_cn."@)
    ||| has_infix(file_name, ".ko_kr."@)
    ||| has_infix(file_name, ".de_de."@)
    ||| has_infix(file_name, ".fr_fr."@)
    ||| has_infix(file_name, ".es_es."@)
    ||| has_infix(file_name, ".it_it."@)
    ||| has_infix(file_name, ".pt_br."@)
    ||| has_infix(file_name, ".ru_ru."@)
}

/// Whether a file of that name is a translation already and is left out of
/// a scan.
pub fn is_translated_file_name(file_name: &str) -> (b: bool)
    ensures
        b == names_translation(file_name@),
{
    let name = chars_of(file_name);
    contains(&name, &chars_of(".ja_jp.")) || contains(&name, &chars_of(".zh_cn.")) || contains(
        &name,
        &chars_of(".ko_kr."),
    ) || contains(&name, &chars_of(".de_de.")) || contains(&name, &chars_of(".fr_fr."))
        || contains(&name, &chars_of(".es_es.")) || contains(&name, &chars_of(".it_it."))
        || contains(&name, &chars_of(".pt_br.")) || contains(&name, &chars_of(".ru_ru."))
}

/// Whether a URL may be opened in the browser: it starts with `http://` or
/// `https://`.
pub fn is_web_url(url: &str) -> (b: bool)
    ensures
        b == (has_prefix(url@, "http://"@) || has_prefix(url@, "https://"@)),
{
    let chars = chars_of(url);
    starts_with(&chars, &chars_of("http://")) || starts_with(&chars, &chars_of("https://"))
}

/// The extension without the dots at its start.
pub open spec fn without_leading_dots(s: Seq<char>) -> Seq<char>
    decreases s.len(),
{
    if s.len() > 0 && s[0] == '.' {
        without_leading_dots(s.skip(1))
    } else {
        s
    }
}

/// Whether a file with the extension `extension` is wanted, where `wanted`
/// may be written with dots in front.
pub fn has_extension(extension: &str, wanted: &str) -> (b: bool)
    ensures
        b == (extension@ == without_leading_dots(wanted@)),
{
    let w = chars_of(wanted);
    let mut from: usize = 0;
    assert(w@.skip(0) == w@);
    while from < w.len() && w[from] == '.'
        invariant
            from <= w.len(),
            without_leading_dots(w@) == without_leading_dots(w@.skip(from as int)),
        decreases w.len() - from,
    {
        assert(w@.skip(from as int).skip(1) == w@.skip(from + 1));
        from += 1;
    }
    let bare = crate::text::string_of_range(&w, from, w.len());
    assert(w@.subrange(from as int, w@.len() as int) == w@.skip(from as int));
    extension.to_owned() == bare
}

/// The line of a legacy language file for one key and its text.
pub open spec fn lang_line(pair: Pair) -> Seq<char> {
    pair.0 + seq!['='] + pair.1
}

/// The lines of the members, in the order of the members.
pub open spec fn lang_lines(pairs: Seq<Pair>) -> Seq<Seq<char>> {
    pairs.map_values(|p: Pair| lang_line(p))
}

/// The text of a legacy language file: one line `key=value` for each member,
/// the lines in ascending order, joined by line feeds.
pub open spec fn legacy_text(pairs: Seq<Pair>) -> Seq<char> {
    joined(lang_lines(pairs).sort_by(by_text()))
}

/// Writes the members as the text of a legacy language file.
pub fn legacy_lang_text(members: &TextMap) -> (text: String)
    ensures
        text@ == legacy_text(members.pairs()),
        crate::text_map::distinct_keys(members.pairs()),
        crate::text_map::map_of(members.pairs()) == members@,
{
    let pairs = members.to_pairs();
    let mut lines: Vec<String> = Vec::new();
    let mut i: usize = 0;
    proof {
        assert(texts_of(lines@) =~= lang_lines(members.pairs().take(0)));
    }
    while i < pairs.len()
        invariant
            i <= pairs.len(),
            pairs@.map_values(|p: (String, String)| (p.0@, p.1@)) == members.pairs(),
            texts_of(lines@) == lang_lines(members.pairs().take(i as int)),
        decreases pairs.len() - i,
    {
        let ghost before = texts_of(lines@);
        let line = pairs[i].0.clone().concat("=").concat(pairs[i].1.as_str());
        proof {
            reveal_strlit("=");
            assert("="@ =~= seq!['=']);
            let pair = members.pairs()[i as int];
            assert(pair == (pairs[i as int].0@, pairs[i as int].1@));
            assert(line@ == lang_line(pair));
        }
        lines.push(line);
        proof {
            assert(texts_of(lines@) =~= before.push(line@));
            assert(lang_lines(members.pairs().take(i + 1)) =~= lang_lines(
                members.pairs().take(i as int),
            ).push(line@));
        }
        i += 1;
    }
    proof {
        assert(members.pairs().take(pairs@.len() as int) == members.pairs());
    }
    let sorted = sort_texts(&lines);
    let mut rows: Vec<Vec<char>> = Vec::new();
    let mut k: usize = 0;
    proof {
        assert(views_of(rows@) =~= texts_of(sorted@).take(0));
    }
    while k < sorted.len()
        invariant
            k <= sorted.len(),
            views_of(rows@) == texts_of(sorted@).take(k as int),
        decreases sorted.len() - k,
    {
        let ghost before = views_of(rows@);
        let row = chars_of(sorted[k].as_str());
        rows.push(row);
        proof {
            assert(views_of(rows@) =~= before.push(row@));
            assert(texts_of(sorted@).take(k + 1) =~= texts_of(sorted@).take(k as int).push(row@));
        }
        k += 1;
    }
    proof {
        assert(texts_of(sorted@).take(sorted@.len() as int) == texts_of(sorted@));
    }
    string_of(&join_lines(&rows))
}

/// A language file to be written: the extension of its name, and its text.
#[derive(Debug)]
pub struct LangFileText {
    pub extension: String,
    pub text: String,
}

/// The language file that is written for a content in a format: for the
/// format `lang` the legacy text, for any other the indented JSON text with
/// its keys in order.
pub fn lang_file_text(content: &str, format: Option<&str>) -> (r: Result<
    LangFileText,
    FileSystemError,
>)
    ensures
        match r {
            Ok(file) => book_members(content@) matches Some(members) && (if format matches Some(f)
                && f@ == "lang"@ {
                &&& file.extension@ == "lang"@
                &&& exists|pairs: Seq<Pair>|
                    crate::text_map::map_of(pairs) == members && crate::text_map::distinct_keys(
                        pairs,
                    ) && file.text@ == #[trigger] legacy_text(pairs)
            } else {
                &&& file.extension@ == "json"@
                &&& json_pretty(members) == Some(file.text@)
            }),
            Err(FileSystemError::InvalidFileType(_)) => book_members(content@) is None,
            Err(FileSystemError::Io(_)) => book_members(content@) matches Some(members) && !(
            format matches Some(f) && f@ == "lang"@) && json_pretty(members) is None,
            Err(_) => false,
        },
{
    let members = match parse_strict(content) {
        Some(doc) => json_text_map(&doc),
        None => None,
    };
    let members = match members {
        Some(members) => members,
        None => {
            return Err(FileSystemError::InvalidFileType("Failed to parse content JSON".to_owned()));
        },
    };
    let legacy = match format {
        Some(f) => f.to_owned() == "lang".to_owned(),
        None => false,
    };
    if legacy {
        let text = legacy_lang_text(&members);
        Ok(LangFileText { extension: "lang".to_owned(), text })
    } else {
        match pretty_text(&members) {
            Some(text) => Ok(LangFileText { extension: "json".to_owned(), text }),
            None => Err(FileSystemError::Io("Failed to serialize content".to_owned())),
        }
    }
}

/// Milliseconds after which a scan reports its progress again.
pub const EMIT_INTERVAL_MS: u64 = 200;

/// Whether a scan reports its progress now: at every tenth file, when the
/// interval has passed since the last report, or at a file that is found.
pub fn should_emit_progress(processed_count: usize, elapsed_ms: u64, found: bool) -> (b: bool)
    ensures
        b == (processed_count % 10 == 0 || elapsed_ms >= EMIT_INTERVAL_MS || found),
{
    processed_count % 10 == 0 || elapsed_ms >= EMIT_INTERVAL_MS || found
}

} // verus!
