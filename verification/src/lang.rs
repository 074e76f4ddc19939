//! Language resource extractor: finds the language files of a mod archive,
//! parses the ones of the requested language into flat key-to-text mappings,
//! and observes in which format the reference locale is written.

use crate::archive::{Archive, EntryModel, Payload};
use crate::error::MinecraftError;
use crate::json::{
    json_is_flat, json_strings, json_text_map, parse_relaxed, relaxed_json, strip_json_comments,
    stripped,
};
use crate::sanitize::{sanitize, sanitized};
use crate::text::{
    chars_of, copy_range, contains, ends_with, find_from, has_infix, has_suffix, last_segment,
    last_segment_start, lines_of, lowercase, position_from, slashed, split_lines, string_of,
    texts_of, to_lowercase, to_slashes, trim, trimmed, views_of,
};
use crate::text_map::{map_of, Pair, TextMap};
use vstd::prelude::*;

verus! {

/// How the language files of a mod are written.
#[derive(Debug, Clone, Copy, PartialEq, Eq, Structural)]
pub enum LanguageFormat {
    /// One JSON object of keys and texts.
    Json,
    /// Lines of `key=value`.
    LegacyKeyValue,
}

impl LanguageFormat {
    /// The text of `as_str`.
    pub open spec fn name(self) -> Seq<char> {
        match self {
            LanguageFormat::Json => "json"@,
            LanguageFormat::LegacyKeyValue => "lang"@,
        }
    }

    /// The file extension of the format, without the dot.
    pub fn as_str(&self) -> (s: &'static str)
        ensures
            s@ == self.name(),
    {
        match self {
            LanguageFormat::Json => "json",
            LanguageFormat::LegacyKeyValue => "lang",
        }
    }
}

/// The texts of one language file.
#[derive(Debug)]
pub struct LangFile {
    /// Language code in lower case, such as `en_us`.
    pub language: String,
    /// Path of the file within the archive.
    pub path: String,
    /// Translation key to text.
    pub content: TextMap,
}

/// What a `LangFile` stands for.
pub struct LangFileModel {
    pub language: Seq<char>,
    pub path: Seq<char>,
    pub content: Map<Seq<char>, Seq<char>>,
}

impl LangFile {
    /// The file as plain values.
    pub open spec fn model(&self) -> LangFileModel {
        LangFileModel { language: self.language@, path: self.path@, content: self.content@ }
    }
}

/// The files as plain values.
pub open spec fn lang_models(files: Seq<LangFile>) -> Seq<LangFileModel> {
    files.map_values(|f: LangFile| f.model())
}

/// A path, with `/` as separator, names a language file: it runs through a
/// `lang` directory and ends in `.json` or `.lang`.
pub open spec fn is_lang_path(path: Seq<char>) -> bool {
    has_infix(path, "/lang/"@) && (has_suffix(path, ".json"@) || has_suffix(path, ".lang"@))
}

/// The file name of a path without its `.json` or `.lang` extension.
pub open spec fn file_stem(path: Seq<char>) -> Seq<char> {
    let file = last_segment(path);
    if has_suffix(file, ".json"@) {
        file.take(file.len() - ".json"@.len())
    } else if has_suffix(file, ".lang"@) {
        file.take(file.len() - ".lang"@.len())
    } else {
        file
    }
}

/// The language code of a language file: its file name without extension,
/// in lower case.
pub open spec fn language_code(path: Seq<char>) -> Seq<char> {
    lowercase(file_stem(path))
}

/// Whether `path` names a language file.
pub fn is_language_file(path: &Vec<char>) -> (b: bool)
    ensures
        b == is_lang_path(path@),
{
    let dir = chars_of("/lang/");
    let json = chars_of(".json");
    let lang = chars_of(".lang");
    contains(path, &dir) && (ends_with(path, &json) || ends_with(path, &lang))
}

/// The language code of the file at `path`.
pub fn language_of(path: &Vec<char>) -> (code: String)
    ensures
        code@ == language_code(path@),
{
    let start = last_segment_start(path);
    let file = copy_range(path, start, path.len());
    assert(file@ == last_segment(path@));
    let json = chars_of(".json");
    let lang = chars_of(".lang");
    let stem = if ends_with(&file, &json) {
        copy_range(&file, 0, file.len() - json.len())
    } else if ends_with(&file, &lang) {
        copy_range(&file, 0, file.len() - lang.len())
    } else {
        file
    };
    let stem_text = string_of(&stem);
    to_lowercase(stem_text.as_str())
}

/// The pair that one line of a legacy language file gives: none for a blank
/// line, a `#` comment, or a line without `=`; else the trimmed texts before
/// and after the first `=`.
pub open spec fn legacy_pair(line: Seq<char>) -> Option<Pair> {
    let t = trimmed(line);
    if t.len() == 0 || t[0] == '#' {
        None
    } else {
        let eq = position_from(t, '=', 0);
        if eq >= t.len() {
            None
        } else {
            Some((trimmed(t.take(eq)), trimmed(t.skip(eq + 1))))
        }
    }
}

/// The pairs that the lines give, in order.
pub open spec fn legacy_pairs(lines: Seq<Seq<char>>) -> Seq<Pair>
    decreases lines.len(),
{
    if lines.len() == 0 {
        Seq::empty()
    } else {
        match legacy_pair(lines.last()) {
            Some(pair) => legacy_pairs(lines.drop_last()).push(pair),
            None => legacy_pairs(lines.drop_last()),
        }
    }
}

/// The mapping that a legacy language file holds; a later line overrides an
/// earlier one with the same key.
pub open spec fn legacy_entries(text: Seq<char>) -> Map<Seq<char>, Seq<char>> {
    map_of(legacy_pairs(lines_of(text)))
}

fn parse_legacy_line(line: &Vec<char>) -> (r: Option<(String, String)>)
    ensures
        match r {
            Some(p) => legacy_pair(line@) == Some((p.0@, p.1@)),
            None => legacy_pair(line@) is None,
        },
{
    let t = trim(line);
    if t.len() == 0 || t[0] == '#' {
        return None;
    }
    let eq = find_from(&t, '=', 0);
    if eq >= t.len() {
        return None;
    }
    let key = trim(&copy_range(&t, 0, eq));
    let value = trim(&copy_range(&t, eq + 1, t.len()));
    assert(t@.subrange(0, eq as int) == t@.take(eq as int));
    assert(t@.subrange(eq + 1, t@.len() as int) == t@.skip(eq + 1));
    Some((string_of(&key), string_of(&value)))
}

/// Parses a legacy language file: one `key=value` per line.
pub fn parse_legacy_lang(text: &str) -> (m: TextMap)
    ensures
        m@ == legacy_entries(text@),
{
    let chars = chars_of(text);
    let lines = split_lines(&chars);
    let mut m = TextMap::new();
    let mut i: usize = 0;
    assert(views_of(lines@).take(0) =~= Seq::<Seq<char>>::empty());
    while i < lines.len()
        invariant
            i <= lines.len(),
            m@ == map_of(legacy_pairs(views_of(lines@).take(i as int))),
        decreases lines.len() - i,
    {
        proof {
            let all = views_of(lines@);
            assert(all.take(i + 1).drop_last() == all.take(i as int));
            assert(all.take(i + 1).last() == lines[i as int]@);
        }
        match parse_legacy_line(&lines[i]) {
            Some(pair) => {
                proof {
                    crate::text_map::lemma_map_of_push(
                        legacy_pairs(views_of(lines@).take(i as int)),
                        pair.0@,
                        pair.1@,
                    );
                }
                m.insert(pair.0, pair.1);
            },
            None => {},
        }
        i += 1;
    }
    assert(views_of(lines@).take(lines@.len() as int) == views_of(lines@));
    m
}

/// The mapping that the bytes of a language file hold; `None` for a JSON
/// file that is beyond recovery or is no flat object of texts.
pub open spec fn lang_content(path: Seq<char>, data: Seq<u8>) -> Option<Map<Seq<char>, Seq<char>>> {
    if has_suffix(path, ".json"@) {
        match relaxed_json(stripped(sanitized(data))) {
            Some(doc) => if json_is_flat(doc) {
                Some(json_strings(doc))
            } else {
                None
            },
            None => None,
        }
    } else {
        Some(legacy_entries(sanitized(data)))
    }
}

/// Parses the bytes of one language file.  `path` is the file's path with
/// `/` as separator; it decides between the two formats.
pub fn parse_lang_file(path: &Vec<char>, data: &[u8]) -> (r: Option<TextMap>)
    ensures
        match r {
            Some(m) => lang_content(path@, data@) == Some(m@),
            None => lang_content(path@, data@) is None,
        },
{
    let text = sanitize(data);
    let json = chars_of(".json");
    if ends_with(path, &json) {
        let clean = strip_json_comments(text.as_str());
        let shown = string_of(path);
        match parse_relaxed(clean.as_str(), shown.as_str()) {
            Ok(doc) => json_text_map(&doc),
            Err(_) => None,
        }
    } else {
        Some(parse_legacy_lang(text.as_str()))
    }
}

/// Why a scan of the archive stops.
pub enum ScanFailure {
    /// The entry at this index cannot be opened.
    Sealed(int),
    /// The bytes of the entry of this name cannot be read.
    Unreadable(Seq<char>),
}

/// What a scan for language files has found.
pub struct LangScanModel {
    /// The files of the requested language, in archive order.
    pub files: Seq<LangFileModel>,
    /// Names of the files of the requested language that could not be parsed.
    pub skipped: Seq<Seq<char>>,
    /// Format of the first file of the reference locale, if there is one.
    pub format: Option<LanguageFormat>,
}

/// The scan after one more entry.
pub open spec fn lang_step(
    found: LangScanModel,
    entry: EntryModel,
    index: int,
    target: Seq<char>,
) -> Result<LangScanModel, ScanFailure> {
    let path = slashed(entry.name);
    if entry.payload is Sealed {
        Err(ScanFailure::Sealed(index))
    } else if !is_lang_path(path) {
        Ok(found)
    } else {
        let code = language_code(path);
        let format = if found.format is None && code == "en_us"@ {
            if has_suffix(path, ".lang"@) {
                Some(LanguageFormat::LegacyKeyValue)
            } else {
                Some(LanguageFormat::Json)
            }
        } else {
            found.format
        };
        if code != lowercase(target) {
            Ok(LangScanModel { format, ..found })
        } else {
            match entry.payload {
                Payload::Bytes(data) => match lang_content(path, data) {
                    Some(content) => Ok(
                        LangScanModel {
                            files: found.files.push(
                                LangFileModel { language: code, path: entry.name, content },
                            ),
                            format,
                            ..found
                        },
                    ),
                    None => Ok(
                        LangScanModel { skipped: found.skipped.push(entry.name), format, ..found },
                    ),
                },
                _ => Err(ScanFailure::Unreadable(entry.name)),
            }
        }
    }
}

/// The scan of a sequence of entries for the files of one language.  It
/// stops at the first entry that cannot be opened, and at the first file of
/// the requested language whose bytes cannot be read.
pub open spec fn lang_scan(entries: Seq<EntryModel>, target: Seq<char>) -> Result<
    LangScanModel,
    ScanFailure,
>
    decreases entries.len(),
{
    if entries.len() == 0 {
        Ok(LangScanModel { files: Seq::empty(), skipped: Seq::empty(), format: None })
    } else {
        match lang_scan(entries.drop_last(), target) {
            Ok(found) => lang_step(found, entries.last(), entries.len() - 1, target),
            Err(failure) => Err(failure),
        }
    }
}

/// The result of a scan for language files.
#[derive(Debug)]
pub struct LangScan {
    /// The files of the requested language, in archive order.
    pub files: Vec<LangFile>,
    /// Names of the files of the requested language that could not be parsed
    /// and were left out.
    pub skipped: Vec<String>,
    /// Format of the reference locale; JSON if the archive has no file of it.
    pub format: LanguageFormat,
}

/// The observed format; JSON where none was observed.
pub open spec fn format_or_json(format: Option<LanguageFormat>) -> LanguageFormat {
    match format {
        Some(f) => f,
        None => LanguageFormat::Json,
    }
}

impl LangScan {
    /// The scan agrees with a model of it.
    pub open spec fn shows(&self, found: LangScanModel) -> bool {
        &&& lang_models(self.files@) == found.files
        &&& texts_of(self.skipped@) == found.skipped
        &&& self.format == format_or_json(found.format)
    }
}

/// Scans the archive for the language files of `target_language` (matched
/// without regard to case) and observes the format of the reference locale
/// `en_us`.
pub fn scan_language_files(archive: &mut Archive, target_language: &str) -> (r: Result<
    LangScan,
    MinecraftError,
>)
    ensures
        final(archive).entries() == old(archive).entries(),
        match r {
            Ok(scan) => lang_scan(old(archive).entries(), target_language@) matches Ok(found)
                && scan.shows(found),
            Err(MinecraftError::EntrySealed(i)) => lang_scan(
                old(archive).entries(),
                target_language@,
            ) == Err::<LangScanModel, ScanFailure>(ScanFailure::Sealed(i as int)),
            Err(MinecraftError::EntryUnreadable(path)) => lang_scan(
                old(archive).entries(),
                target_language@,
            ) == Err::<LangScanModel, ScanFailure>(ScanFailure::Unreadable(path@)),
            Err(_) => false,
        },
{
    let wanted = to_lowercase(target_language);
    let reference = "en_us".to_owned();
    let lang_ext = chars_of(".lang");
    let mut files: Vec<LangFile> = Vec::new();
    let mut skipped: Vec<String> = Vec::new();
    let mut format: Option<LanguageFormat> = None;
    let n = archive.len();
    let mut i: usize = 0;
    let ghost entries = archive.entries();
    proof {
        assert(entries.take(0) =~= Seq::<EntryModel>::empty());
        assert(lang_models(files@) =~= Seq::<LangFileModel>::empty());
        assert(texts_of(skipped@) =~= Seq::<Seq<char>>::empty());
    }
    while i < n
        invariant
            i <= n,
            n == entries.len(),
            archive.entries() == entries,
            entries == old(archive).entries(),
            wanted@ == lowercase(target_language@),
            reference@ == "en_us"@,
            lang_ext@ == ".lang"@,
            lang_scan(entries.take(i as int), target_language@) == Ok::<LangScanModel, ScanFailure>(
                LangScanModel {
                    files: lang_models(files@),
                    skipped: texts_of(skipped@),
                    format,
                },
            ),
        decreases n - i,
    {
        proof {
            assert(entries.take(i + 1).drop_last() == entries.take(i as int));
            assert(entries.take(i + 1).last() == entries[i as int]);
        }
        let ghost found = LangScanModel {
            files: lang_models(files@),
            skipped: texts_of(skipped@),
            format,
        };
        let name = match archive.entry_name(i) {
            Some(name) => name,
            None => {
                proof {
                    lemma_scan_stops(entries, target_language@, i + 1);
                }
                return Err(MinecraftError::EntrySealed(i));
            },
        };
        let path = to_slashes(&chars_of(name.as_str()));
        if is_language_file(&path) {
            let code = language_of(&path);
            if format.is_none() && code == reference {
                if ends_with(&path, &lang_ext) {
                    format = Some(LanguageFormat::LegacyKeyValue);
                } else {
                    format = Some(LanguageFormat::Json);
                }
            }
            if code == wanted {
                match archive.entry_bytes(i) {
                    None => {
                        proof {
                            lemma_scan_stops(entries, target_language@, i + 1);
                        }
                        return Err(MinecraftError::EntryUnreadable(name));
                    },
                    Some(data) => {
                        match parse_lang_file(&path, data.as_slice()) {
                            Some(content) => {
                                let ghost before = lang_models(files@);
                                let file = LangFile { language: code, path: name, content };
                                files.push(file);
                                proof {
                                    assert(lang_models(files@) =~= before.push(file.model()));
                                }
                            },
                            None => {
                                let ghost before = texts_of(skipped@);
                                skipped.push(name);
                                proof {
                                    assert(texts_of(skipped@) =~= before.push(name@));
                                }
                            },
                        }
                    },
                }
            }
        }
        i += 1;
    }
    proof {
        assert(entries.take(n as int) == entries);
    }
    let shown = match format {
        Some(f) => f,
        None => LanguageFormat::Json,
    };
    Ok(LangScan { files, skipped, format: shown })
}

/// A scan that has failed on a prefix of the entries fails in the same way
/// on all of them.
pub proof fn lemma_scan_stops(entries: Seq<EntryModel>, target: Seq<char>, upto: int)
    requires
        0 <= upto <= entries.len(),
        lang_scan(entries.take(upto), target) is Err,
    ensures
        lang_scan(entries, target) == lang_scan(entries.take(upto), target),
    decreases entries.len() - upto,
{
    if upto < entries.len() {
        assert(entries.take(upto + 1).drop_last() == entries.take(upto));
        lemma_scan_stops(entries, target, upto + 1);
    } else {
        assert(entries.take(upto) == entries);
    }
}

/// The language files of `target_language` in the archive, each with its
/// texts.  A JSON file that cannot be parsed is left out.
pub fn extract_lang_files_from_archive(archive: &mut Archive, target_language: &str) -> (r: Result<
    Vec<LangFile>,
    MinecraftError,
>)
    ensures
        final(archive).entries() == old(archive).entries(),
        match r {
            Ok(files) => lang_scan(old(archive).entries(), target_language@) matches Ok(found)
                && lang_models(files@) == found.files,
            Err(MinecraftError::EntrySealed(i)) => lang_scan(
                old(archive).entries(),
                target_language@,
            ) == Err::<LangScanModel, ScanFailure>(ScanFailure::Sealed(i as int)),
            Err(MinecraftError::EntryUnreadable(path)) => lang_scan(
                old(archive).entries(),
                target_language@,
            ) == Err::<LangScanModel, ScanFailure>(ScanFailure::Unreadable(path@)),
            Err(_) => false,
        },
{
    match scan_language_files(archive, target_language) {
        Ok(scan) => Ok(scan.files),
        Err(e) => Err(e),
    }
}

/// The language files of `target_language`, and the name of the format in
/// which the reference locale is written (`json` or `lang`).
pub fn extract_lang_files_from_archive_with_format(
    archive: &mut Archive,
    target_language: &str,
) -> (r: Result<(Vec<LangFile>, String), MinecraftError>)
    ensures
        final(archive).entries() == old(archive).entries(),
        match r {
            Ok(pair) => lang_scan(old(archive).entries(), target_language@) matches Ok(found)
                && lang_models(pair.0@) == found.files && pair.1@ == format_or_json(
                found.format,
            ).name(),
            Err(MinecraftError::EntrySealed(i)) => lang_scan(
                old(archive).entries(),
                target_language@,
            ) == Err::<LangScanModel, ScanFailure>(ScanFailure::Sealed(i as int)),
            Err(MinecraftError::EntryUnreadable(path)) => lang_scan(
                old(archive).entries(),
                target_language@,
            ) == Err::<LangScanModel, ScanFailure>(ScanFailure::Unreadable(path@)),
            Err(_) => false,
        },
{
    match scan_language_files(archive, target_language) {
        Ok(scan) => {
            let format = scan.format.as_str().to_owned();
            Ok((scan.files, format))
        },
        Err(e) => Err(e),
    }
}

/// The format in which the reference locale `en_us` is written: that of its
/// first language file; JSON if it has none.
pub fn detect_reference_format(archive: &mut Archive) -> (r: Result<LanguageFormat, MinecraftError>)
    ensures
        final(archive).entries() == old(archive).entries(),
        match r {
            Ok(format) => lang_scan(old(archive).entries(), "en_us"@) matches Ok(found) && format
                == format_or_json(found.format),
            Err(MinecraftError::EntrySealed(i)) => lang_scan(old(archive).entries(), "en_us"@)
                == Err::<LangScanModel, ScanFailure>(ScanFailure::Sealed(i as int)),
            Err(MinecraftError::EntryUnreadable(path)) => lang_scan(
                old(archive).entries(),
                "en_us"@,
            ) == Err::<LangScanModel, ScanFailure>(ScanFailure::Unreadable(path@)),
            Err(_) => false,
        },
{
    match scan_language_files(archive, "en_us") {
        Ok(scan) => Ok(scan.format),
        Err(e) => Err(e),
    }
}

} // verus!
