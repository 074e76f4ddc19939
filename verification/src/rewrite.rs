//! Archive rewriter: builds a new archive that holds every entry of an
//! archive as it is, but for one entry that is added or replaced.

use crate::archive::{archive_of, Archive, EntryModel, Payload};
use crate::error::MinecraftError;
use crate::json::{json_is_flat, json_of, json_strings, json_text_map, parse_strict};
use std::io::Cursor;
use std::io::Write;
use vstd::prelude::*;
use vstd::string::StringExecFns;
use vstd::string::StringSliceAdditionalSpecFns;
use zip::result::ZipError;
use zip::write::FileOptions;
use zip::write::ZipWriter;

verus! {

/// A ZIP archive under construction, held in memory.
#[verifier::external_body]
pub struct ArchiveWriter {
    inner: ZipWriter<Cursor<Vec<u8>>>,
}

/// One entry to be written: its name and its bytes.
pub type Written = (Seq<char>, Seq<u8>);

/// The entries that were written to an archive under construction, in order.
pub uninterp spec fn zip_written(w: ArchiveWriter) -> Seq<Written>;

/// The archive writer, holding the entries `written`, takes one more entry
/// of that name and those bytes.
pub uninterp spec fn zip_takes(written: Seq<Written>, name: Seq<char>, data: Seq<u8>) -> bool;

/// The bytes of the archive that holds the given entries, written with the
/// default options; `None` if the writer cannot close such an archive.
pub uninterp spec fn zip_image(entries: Seq<Written>) -> Option<Seq<u8>>;

/// `ZipWriter::new` on an empty buffer.
#[verifier::external_body]
fn writer_new() -> (w: ArchiveWriter)
    ensures
        zip_written(w) == Seq::<Written>::empty(),
{
    ArchiveWriter { inner: ZipWriter::new(Cursor::new(Vec::new())) }
}

/// `ZipWriter::start_file` with the default options, then `write_all` of the
/// bytes.  The writer writes into memory, so whether it takes the entry
/// depends on what it holds and on the entry alone.  On success one entry
/// more stands at the end.
#[verifier::external_body]
fn writer_add(w: &mut ArchiveWriter, name: &str, data: &[u8]) -> (r: Result<(), ZipError>)
    ensures
        r is Ok <==> zip_takes(zip_written(*old(w)), name@, data@),
        r is Ok ==> zip_written(*final(w)) == zip_written(*old(w)).push((name@, data@)),
{
    w.inner.start_file(name, FileOptions::default())?;
    w.inner.write_all(data).map_err(ZipError::Io)
}

/// `ZipWriter::finish`: writes the central directory and hands the buffer
/// out.  Success and the bytes depend on the entries written alone.
#[verifier::external_body]
fn writer_finish(w: ArchiveWriter) -> (r: Result<Vec<u8>, ZipError>)
    ensures
        r is Ok <==> zip_image(zip_written(w)) is Some,
        r matches Ok(bytes) ==> zip_image(zip_written(w)) == Some(bytes@),
{
    let mut w = w;
    w.inner.finish().map(|buffer| buffer.into_inner())
}

/// Longest entry name, in bytes, that a ZIP archive can hold.
pub const MAX_NAME_BYTES: usize = 65535;

/// The name, in UTF-8, is not longer than an archive can hold.
pub open spec fn name_fits(name: Seq<char>) -> bool {
    vstd::utf8::encode_utf8(name).len() <= MAX_NAME_BYTES
}

/// Why an archive cannot be rewritten.
pub enum RewriteFailure {
    /// The entry at this index cannot be opened.
    Sealed(int),
    /// The bytes of the entry of this name cannot be read.
    Unreadable(Seq<char>),
    /// A name is too long for an archive.
    NameTooLong,
    /// The archive writer does not take an entry, or cannot close the
    /// archive.
    Refused,
}

/// The entries that are copied when the entry `path` is replaced: all but
/// those of that name, each with its bytes, in order.
pub open spec fn copied(entries: Seq<EntryModel>, path: Seq<char>) -> Result<
    Seq<Written>,
    RewriteFailure,
>
    decreases entries.len(),
{
    if entries.len() == 0 {
        Ok(Seq::empty())
    } else {
        match copied(entries.drop_last(), path) {
            Err(failure) => Err(failure),
            Ok(done) => {
                let entry = entries.last();
                if entry.payload is Sealed {
                    Err(RewriteFailure::Sealed(entries.len() - 1))
                } else if entry.name == path {
                    Ok(done)
                } else {
                    match entry.payload {
                        Payload::Bytes(data) => if !name_fits(entry.name) {
                            Err(RewriteFailure::NameTooLong)
                        } else if !zip_takes(done, entry.name, data) {
                            Err(RewriteFailure::Refused)
                        } else {
                            Ok(done.push((entry.name, data)))
                        },
                        _ => Err(RewriteFailure::Unreadable(entry.name)),
                    }
                }
            },
        }
    }
}

/// The entries of the new archive: the copied ones, then the new entry.
pub open spec fn rewritten(entries: Seq<EntryModel>, path: Seq<char>, content: Seq<u8>) -> Result<
    Seq<Written>,
    RewriteFailure,
> {
    if !name_fits(path) {
        Err(RewriteFailure::NameTooLong)
    } else {
        match copied(entries, path) {
            Ok(done) => if zip_takes(done, path, content) {
                Ok(done.push((path, content)))
            } else {
                Err(RewriteFailure::Refused)
            },
            Err(failure) => Err(failure),
        }
    }
}

/// The bytes of the new archive.
pub open spec fn rewrite_result(entries: Seq<EntryModel>, path: Seq<char>, content: Seq<u8>) -> Result<
    Seq<u8>,
    RewriteFailure,
> {
    match rewritten(entries, path, content) {
        Ok(list) => match zip_image(list) {
            Some(bytes) => Ok(bytes),
            None => Err(RewriteFailure::Refused),
        },
        Err(failure) => Err(failure),
    }
}

/// The error reports that failure.
pub open spec fn reports_rewrite(e: MinecraftError, failure: RewriteFailure) -> bool {
    match (e, failure) {
        (MinecraftError::EntrySealed(i), RewriteFailure::Sealed(j)) => i == j,
        (MinecraftError::EntryUnreadable(path), RewriteFailure::Unreadable(name)) => path@ == name,
        (MinecraftError::Rewrite(_), RewriteFailure::NameTooLong) => true,
        (MinecraftError::Rewrite(_), RewriteFailure::Refused) => true,
        _ => false,
    }
}

/// A copy that has failed on a prefix of the entries fails in the same way
/// on all of them.
pub proof fn lemma_copy_stops(entries: Seq<EntryModel>, path: Seq<char>, upto: int)
    requires
        0 <= upto <= entries.len(),
        copied(entries.take(upto), path) is Err,
    ensures
        copied(entries, path) == copied(entries.take(upto), path),
    decreases entries.len() - upto,
{
    if upto < entries.len() {
        assert(entries.take(upto + 1).drop_last() == entries.take(upto));
        lemma_copy_stops(entries, path, upto + 1);
    } else {
        assert(entries.take(upto) == entries);
    }
}

/// Replaces or adds the entry `entry_path` with the bytes `content` in the
/// archive held by `archive`, and returns the bytes of the new archive.
/// Every other entry keeps its name and its bytes, and the new entry holds
/// `content` as it is; no name occurs twice on account of the new entry.  On
/// any failure no new archive is returned.  A name that is too long for an
/// archive is refused.
pub fn replace_entry(archive: Vec<u8>, entry_path: &str, content: &[u8]) -> (r: Result<
    Vec<u8>,
    MinecraftError,
>)
    ensures
        match r {
            Ok(out) => archive_of(archive@) matches Some(entries) && rewrite_result(
                entries,
                entry_path@,
                content@,
            ) == Ok::<Seq<u8>, RewriteFailure>(out@),
            Err(e) => match archive_of(archive@) {
                None => e is ArchiveOpen,
                Some(entries) => rewrite_result(entries, entry_path@, content@) matches Err(
                    failure,
                ) && reports_rewrite(e, failure),
            },
        },
{
    let mut source = match Archive::open(archive) {
        Ok(source) => source,
        Err(e) => {
            return Err(e);
        },
    };
    if entry_path.as_bytes().len() > MAX_NAME_BYTES {
        return Err(MinecraftError::Rewrite("entry name too long".to_owned()));
    }
    let wanted = entry_path.to_owned();
    let mut writer = writer_new();
    let n = source.len();
    let ghost entries = source.entries();
    let mut i: usize = 0;
    proof {
        assert(entries.take(0) =~= Seq::<EntryModel>::empty());
    }
    while i < n
        invariant
            i <= n,
            n == entries.len(),
            source.entries() == entries,
            archive_of(archive@) == Some(entries),
            wanted@ == entry_path@,
            name_fits(entry_path@),
            copied(entries.take(i as int), entry_path@) == Ok::<Seq<Written>, RewriteFailure>(
                zip_written(writer),
            ),
        decreases n - i,
    {
        proof {
            assert(entries.take(i + 1).drop_last() == entries.take(i as int));
            assert(entries.take(i + 1).last() == entries[i as int]);
        }
        let name = match source.entry_name(i) {
            Some(name) => name,
            None => {
                proof {
                    lemma_copy_stops(entries, entry_path@, i + 1);
                }
                return Err(MinecraftError::EntrySealed(i));
            },
        };
        if name != wanted {
            let data = match source.entry_bytes(i) {
                Some(data) => data,
                None => {
                    proof {
                        lemma_copy_stops(entries, entry_path@, i + 1);
                    }
                    return Err(MinecraftError::EntryUnreadable(name));
                },
            };
            if name.as_str().as_bytes().len() > MAX_NAME_BYTES {
                proof {
                    lemma_copy_stops(entries, entry_path@, i + 1);
                }
                return Err(MinecraftError::Rewrite("entry name too long".to_owned()));
            }
            match writer_add(&mut writer, name.as_str(), data.as_slice()) {
                Ok(_) => {},
                Err(_) => {
                    proof {
                        lemma_copy_stops(entries, entry_path@, i + 1);
                    }
                    return Err(MinecraftError::Rewrite("cannot copy an entry".to_owned()));
                },
            }
        }
        i += 1;
    }
    proof {
        assert(entries.take(n as int) == entries);
    }
    match writer_add(&mut writer, entry_path, content) {
        Ok(_) => {},
        Err(_) => {
            return Err(MinecraftError::Rewrite("cannot write the new entry".to_owned()));
        },
    }
    match writer_finish(writer) {
        Ok(out) => Ok(out),
        Err(_) => Err(MinecraftError::Rewrite("cannot finish the archive".to_owned())),
    }
}

/// Path of the language file of a Patchouli book within a mod archive.
pub open spec fn book_lang_path(mod_id: Seq<char>, book_id: Seq<char>, language: Seq<char>) -> Seq<
    char,
> {
    "assets/"@ + mod_id + "/patchouli_books/"@ + book_id + "/"@ + language + ".json"@
}

/// Composes the path of the language file of a Patchouli book.
pub fn book_language_path(mod_id: &str, book_id: &str, language: &str) -> (path: String)
    ensures
        path@ == book_lang_path(mod_id@, book_id@, language@),
{
    String::from_str("assets/").concat(mod_id).concat("/patchouli_books/").concat(book_id).concat(
        "/",
    ).concat(language).concat(".json")
}

/// The key-to-text mapping that a content text holds, if it is a flat JSON
/// object of texts.
pub open spec fn book_members(content: Seq<char>) -> Option<Map<Seq<char>, Seq<char>>> {
    match json_of(content) {
        Some(doc) => if json_is_flat(doc) {
            Some(json_strings(doc))
        } else {
            None
        },
        None => None,
    }
}

/// Writes the translated texts of a Patchouli book into the mod archive held
/// by `jar`, as the entry `assets/{mod}/patchouli_books/{book}/{language}.json`,
/// and returns the bytes of the new archive.  `content` must be a JSON
/// object of keys and texts; it is written as it is.
pub fn write_patchouli_book(
    jar: Vec<u8>,
    book_id: &str,
    mod_id: &str,
    language: &str,
    content: &str,
) -> (r: Result<Vec<u8>, MinecraftError>)
    ensures
        match r {
            Ok(out) => {
                &&& book_members(content@) is Some
                &&& archive_of(jar@) matches Some(entries) && rewrite_result(
                    entries,
                    book_lang_path(mod_id@, book_id@, language@),
                    vstd::utf8::encode_utf8(content@),
                ) == Ok::<Seq<u8>, RewriteFailure>(out@)
            },
            Err(e) => if book_members(content@) is None {
                e matches MinecraftError::Parse(p) && p.path@ == book_lang_path(
                    mod_id@,
                    book_id@,
                    language@,
                )
            } else {
                match archive_of(jar@) {
                    None => e is ArchiveOpen,
                    Some(entries) => rewrite_result(
                        entries,
                        book_lang_path(mod_id@, book_id@, language@),
                        vstd::utf8::encode_utf8(content@),
                    ) matches Err(failure) && reports_rewrite(e, failure),
                }
            },
        },
{
    let path = book_language_path(mod_id, book_id, language);
    let members = match parse_strict(content) {
        Some(doc) => json_text_map(&doc),
        None => None,
    };
    if members.is_none() {
        return Err(MinecraftError::Parse(crate::json::ParseError { path }));
    }
    replace_entry(jar, path.as_str(), content.as_bytes())
}

} // verus!
