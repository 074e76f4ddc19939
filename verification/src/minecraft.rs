//! The operations on a mod archive as a whole: analysis, extraction of the
//! language files and of the guidebooks.

use crate::archive::{archive_of, Archive, EntryModel};
use crate::error::MinecraftError;
use crate::guidebook::{
    book_models, book_scan, field_pattern, indices_of, page_path_pattern, regex_compiles,
    scan_books, BookModel, BookScan, PatchouliBook,
};
use crate::identity::{extract_mod_info, failure_of, identity_of, IdentityFailure};
use crate::lang::{
    extract_lang_files_from_archive, format_or_json, lang_models, lang_scan,
    scan_language_files, LangFile, LangFileModel, LangScan, ScanFailure,
};
use crate::text::{chars_of, has_prefix, slashed, starts_with, texts_of, to_slashes};
use vstd::prelude::*;
use vstd::string::StringExecFns;

verus! {

/// What the analysis of a mod archive yields.
#[derive(Debug)]
pub struct ModInfo {
    /// Mod id.
    pub id: String,
    /// Mod name.
    pub name: String,
    /// Mod version.
    pub version: String,
    /// Path of the archive file.
    pub jar_path: String,
    /// The language files of the reference locale.
    pub lang_files: Vec<LangFile>,
    /// The Patchouli books of the mod.
    pub patchouli_books: Vec<PatchouliBook>,
    /// Format of the reference locale: `json` or `lang`.
    pub lang_format: String,
}

/// What a `ModInfo` stands for.
pub struct ModInfoModel {
    pub id: Seq<char>,
    pub name: Seq<char>,
    pub version: Seq<char>,
    pub jar_path: Seq<char>,
    pub lang_files: Seq<LangFileModel>,
    pub patchouli_books: Seq<BookModel>,
    pub lang_format: Seq<char>,
}

impl ModInfo {
    /// The analysis as plain values.
    pub open spec fn model(&self) -> ModInfoModel {
        ModInfoModel {
            id: self.id@,
            name: self.name@,
            version: self.version@,
            jar_path: self.jar_path@,
            lang_files: lang_models(self.lang_files@),
            patchouli_books: book_models(self.patchouli_books@),
            lang_format: self.lang_format@,
        }
    }
}

/// The error reports that failure of a scan.
pub open spec fn reports_scan(e: MinecraftError, failure: ScanFailure) -> bool {
    match (e, failure) {
        (MinecraftError::EntrySealed(i), ScanFailure::Sealed(j)) => i == j,
        (MinecraftError::EntryUnreadable(path), ScanFailure::Unreadable(name)) => path@ == name,
        _ => false,
    }
}

/// The error reports that failure of the identity resolver.
pub open spec fn reports_identity(e: MinecraftError, failure: IdentityFailure) -> bool {
    failure_of(e) == Some(failure)
}

/// The pattern engine accepts both patterns of the guidebook extractor.
pub open spec fn patterns_compile() -> bool {
    regex_compiles(page_path_pattern()) && regex_compiles(field_pattern())
}

/// The error reports why the books of an archive cannot be extracted: the
/// pattern engine refuses a pattern.
pub open spec fn reports_books(e: MinecraftError) -> bool {
    e is Pattern && !patterns_compile()
}

/// The analysis of the entries of a mod archive: the mod's identity, its
/// language files of the reference locale with their format, and its books.
pub open spec fn analysis_of(entries: Seq<EntryModel>, jar_path: Seq<char>) -> Option<
    ModInfoModel,
> {
    match (identity_of(entries), lang_scan(entries, "en_us"@)) {
        (Ok(identity), Ok(found)) => if patterns_compile() {
            Some(
                ModInfoModel {
                    id: identity.id,
                    name: identity.display_name,
                    version: identity.version,
                    jar_path,
                    lang_files: found.files,
                    patchouli_books: book_scan(entries).books,
                    lang_format: format_or_json(found.format).name(),
                },
            )
        } else {
            None
        },
        _ => None,
    }
}

/// The error reports the first step of the analysis that fails: identity,
/// language files, books.
pub open spec fn reports_analysis(e: MinecraftError, entries: Seq<EntryModel>) -> bool {
    match identity_of(entries) {
        Err(failure) => reports_identity(e, failure),
        Ok(_) => match lang_scan(entries, "en_us"@) {
            Err(failure) => reports_scan(e, failure),
            Ok(_) => reports_books(e),
        },
    }
}

/// The analysis of a mod archive together with what was left out of it.
#[derive(Debug)]
pub struct ModAnalysis {
    pub info: ModInfo,
    /// Names of the language files that could not be parsed.
    pub skipped_lang_files: Vec<String>,
    /// Names of the book pages whose bytes could not be read.
    pub skipped_pages: Vec<String>,
    /// Indices of the entries that the book scan could not open.
    pub unopened: Vec<usize>,
}

/// Analyzes the mod archive held by `jar`, the contents of the file at
/// `jar_path`, and reports what was left out.
pub fn analyze_mod(jar_path: &str, jar: Vec<u8>) -> (r: Result<ModAnalysis, MinecraftError>)
    ensures
        match r {
            Ok(analysis) => archive_of(jar@) matches Some(entries) && {
                &&& analysis_of(entries, jar_path@) == Some(analysis.info.model())
                &&& lang_scan(entries, "en_us"@) matches Ok(found) && texts_of(
                    analysis.skipped_lang_files@,
                ) == found.skipped
                &&& texts_of(analysis.skipped_pages@) == book_scan(entries).skipped
                &&& indices_of(analysis.unopened@) == book_scan(entries).unopened
            },
            Err(e) => match archive_of(jar@) {
                None => e is ArchiveOpen,
                Some(entries) => reports_analysis(e, entries),
            },
        },
{
    let mut archive = match Archive::open(jar) {
        Ok(archive) => archive,
        Err(e) => {
            return Err(e);
        },
    };
    let (id, name, version) = match extract_mod_info(&mut archive) {
        Ok(info) => info,
        Err(e) => {
            return Err(e);
        },
    };
    let languages = match scan_language_files(&mut archive, "en_us") {
        Ok(found) => found,
        Err(e) => {
            return Err(e);
        },
    };
    let books = match scan_books(&mut archive) {
        Ok(books) => books,
        Err(e) => {
            return Err(e);
        },
    };
    Ok(
        ModAnalysis {
            info: ModInfo {
                id,
                name,
                version,
                jar_path: jar_path.to_owned(),
                lang_files: languages.files,
                patchouli_books: books.books,
                lang_format: languages.format.as_str().to_owned(),
            },
            skipped_lang_files: languages.skipped,
            skipped_pages: books.skipped,
            unopened: books.unopened,
        },
    )
}

/// Analyzes the mod archive held by `jar`, the contents of the file at
/// `jar_path`.
pub fn analyze_mod_jar(jar_path: &str, jar: Vec<u8>) -> (r: Result<ModInfo, MinecraftError>)
    ensures
        match r {
            Ok(info) => archive_of(jar@) matches Some(entries) && analysis_of(entries, jar_path@)
                == Some(info.model()),
            Err(e) => match archive_of(jar@) {
                None => e is ArchiveOpen,
                Some(entries) => reports_analysis(e, entries),
            },
        },
{
    match analyze_mod(jar_path, jar) {
        Ok(analysis) => Ok(analysis.info),
        Err(e) => Err(e),
    }
}

/// Scans the mod archive held by `jar` for the language files of the
/// reference locale, and reports the files that were left out.  The mod's
/// identity must be resolvable.
pub fn scan_mod_lang_files(jar: Vec<u8>) -> (r: Result<LangScan, MinecraftError>)
    ensures
        match r {
            Ok(scan) => archive_of(jar@) matches Some(entries) && {
                &&& identity_of(entries) is Ok
                &&& lang_scan(entries, "en_us"@) matches Ok(found) && scan.shows(found)
            },
            Err(e) => match archive_of(jar@) {
                None => e is ArchiveOpen,
                Some(entries) => match identity_of(entries) {
                    Err(failure) => reports_identity(e, failure),
                    Ok(_) => lang_scan(entries, "en_us"@) matches Err(failure) && reports_scan(
                        e,
                        failure,
                    ),
                },
            },
        },
{
    let mut archive = match Archive::open(jar) {
        Ok(archive) => archive,
        Err(e) => {
            return Err(e);
        },
    };
    match extract_mod_info(&mut archive) {
        Ok(_) => {},
        Err(e) => {
            return Err(e);
        },
    }
    scan_language_files(&mut archive, "en_us")
}

/// The language files of the reference locale in the mod archive held by
/// `jar`.  The mod's identity must be resolvable.
pub fn extract_lang_files(jar: Vec<u8>) -> (r: Result<Vec<LangFile>, MinecraftError>)
    ensures
        match r {
            Ok(files) => archive_of(jar@) matches Some(entries) && {
                &&& identity_of(entries) is Ok
                &&& lang_scan(entries, "en_us"@) matches Ok(found) && lang_models(files@)
                    == found.files
            },
            Err(e) => match archive_of(jar@) {
                None => e is ArchiveOpen,
                Some(entries) => match identity_of(entries) {
                    Err(failure) => reports_identity(e, failure),
                    Ok(_) => lang_scan(entries, "en_us"@) matches Err(failure) && reports_scan(
                        e,
                        failure,
                    ),
                },
            },
        },
{
    match scan_mod_lang_files(jar) {
        Ok(scan) => Ok(scan.files),
        Err(e) => Err(e),
    }
}

/// Scans the mod archive held by `jar` for its Patchouli books, and reports
/// what was left out.  The mod's identity must be resolvable.
pub fn scan_mod_books(jar: Vec<u8>) -> (r: Result<BookScan, MinecraftError>)
    ensures
        match r {
            Ok(scan) => archive_of(jar@) matches Some(entries) && {
                &&& identity_of(entries) is Ok
                &&& patterns_compile()
                &&& scan.shows(book_scan(entries))
            },
            Err(e) => match archive_of(jar@) {
                None => e is ArchiveOpen,
                Some(entries) => match identity_of(entries) {
                    Err(failure) => reports_identity(e, failure),
                    Ok(_) => reports_books(e),
                },
            },
        },
{
    let mut archive = match Archive::open(jar) {
        Ok(archive) => archive,
        Err(e) => {
            return Err(e);
        },
    };
    match extract_mod_info(&mut archive) {
        Ok(_) => {},
        Err(e) => {
            return Err(e);
        },
    }
    scan_books(&mut archive)
}

/// The Patchouli books in the mod archive held by `jar`.  The mod's identity
/// must be resolvable.
pub fn extract_patchouli_books(jar: Vec<u8>) -> (r: Result<Vec<PatchouliBook>, MinecraftError>)
    ensures
        match r {
            Ok(books) => archive_of(jar@) matches Some(entries) && {
                &&& identity_of(entries) is Ok
                &&& patterns_compile()
                &&& book_models(books@) == book_scan(entries).books
            },
            Err(e) => match archive_of(jar@) {
                None => e is ArchiveOpen,
                Some(entries) => match identity_of(entries) {
                    Err(failure) => reports_identity(e, failure),
                    Ok(_) => reports_books(e),
                },
            },
        },
{
    match scan_mod_books(jar) {
        Ok(scan) => Ok(scan.books),
        Err(e) => Err(e),
    }
}

/// Whether the mod archive held by `jar` has a language file of
/// `target_language` that can be read as a mapping of texts.
pub fn has_translation(jar: Vec<u8>, target_language: &str) -> (r: Result<bool, MinecraftError>)
    ensures
        match r {
            Ok(b) => archive_of(jar@) matches Some(entries) && lang_scan(
                entries,
                target_language@,
            ) matches Ok(found) && b == (found.files.len() > 0),
            Err(e) => match archive_of(jar@) {
                None => e is ArchiveOpen,
                Some(entries) => lang_scan(entries, target_language@) matches Err(failure)
                    && reports_scan(e, failure),
            },
        },
{
    let mut archive = match Archive::open(jar) {
        Ok(archive) => archive,
        Err(e) => {
            return Err(e);
        },
    };
    match extract_lang_files_from_archive(&mut archive, target_language) {
        Ok(files) => Ok(files.len() > 0),
        Err(e) => Err(e),
    }
}

/// Directory of the language files of a mod within its archive.
pub open spec fn mod_lang_dir(mod_id: Seq<char>) -> Seq<char> {
    "assets/"@ + mod_id + "/lang/"@
}

/// Some file lies in the language directory of the mod.
pub open spec fn has_file_of_mod(files: Seq<LangFileModel>, mod_id: Seq<char>) -> bool {
    exists|i: int|
        0 <= i < files.len() && has_prefix(slashed(#[trigger] files[i].path), mod_lang_dir(mod_id))
}

/// Whether the mod archive held by `jar` holds a translation of the mod
/// `mod_id` to `target_language`: a language file of that language, in the
/// language directory of that mod, that can be read as a mapping of texts.
pub fn check_mod_translation_exists(jar: Vec<u8>, mod_id: &str, target_language: &str) -> (r: Result<
    bool,
    MinecraftError,
>)
    ensures
        match r {
            Ok(b) => archive_of(jar@) matches Some(entries) && lang_scan(
                entries,
                target_language@,
            ) matches Ok(found) && b == has_file_of_mod(found.files, mod_id@),
            Err(e) => match archive_of(jar@) {
                None => e is ArchiveOpen,
                Some(entries) => lang_scan(entries, target_language@) matches Err(failure)
                    && reports_scan(e, failure),
            },
        },
{
    let mut archive = match Archive::open(jar) {
        Ok(archive) => archive,
        Err(e) => {
            return Err(e);
        },
    };
    let files = match extract_lang_files_from_archive(&mut archive, target_language) {
        Ok(files) => files,
        Err(e) => {
            return Err(e);
        },
    };
    let dir = chars_of(String::from_str("assets/").concat(mod_id).concat("/lang/").as_str());
    let ghost found = lang_models(files@);
    let mut i: usize = 0;
    while i < files.len()
        invariant
            i <= files.len(),
            dir@ == mod_lang_dir(mod_id@),
            found == lang_models(files@),
            forall|k: int|
                0 <= k < i ==> !has_prefix(
                    slashed(#[trigger] found[k].path),
                    mod_lang_dir(mod_id@),
                ),
        ensures
            i <= files.len(),
            i < files.len() ==> has_prefix(slashed(found[i as int].path), mod_lang_dir(mod_id@)),
            forall|k: int|
                0 <= k < i ==> !has_prefix(
                    slashed(#[trigger] found[k].path),
                    mod_lang_dir(mod_id@),
                ),
        decreases files.len() - i,
    {
        let path = to_slashes(&chars_of(files[i].path.as_str()));
        assert(found[i as int].path == files[i as int].path@);
        if starts_with(&path, &dir) {
            break;
        }
        i += 1;
    }
    let b = i < files.len();
    proof {
        if b {
            assert(has_prefix(slashed(found[i as int].path), mod_lang_dir(mod_id@)));
            assert(has_file_of_mod(found, mod_id@));
        }
    }
    Ok(b)
}

} // verus!
